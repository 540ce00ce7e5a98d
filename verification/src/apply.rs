//! The apply procedure as a state machine.
//!
//! The procedure guards a target directory against clobbering local work and
//! then applies every patch file of a patch directory to it, in listing
//! order. It runs three kinds of external commands: a query for unstaged
//! changes, a query for staged-but-uncommitted changes, and one patch-tool
//! invocation per patch file. The driver performs whatever the current
//! phase asks for and hands the outcome back; every decision in between —
//! when to abort, which file to apply next, when the procedure is done —
//! is made here and verified.
//!
//! A session that has reached [`Phase::Done`] or [`Phase::Failed`] is final:
//! no method accepts an event in those phases, so a failed cleanliness check
//! or a failed patch stops the procedure before any further patch is
//! attempted.

use vstd::prelude::*;

use crate::selection::{select_patch_names, selected_patches};

verus! {

/// What the driver must do next. Each phase before `Done` and `Failed`
/// stands for one pending external step.
#[derive(Clone, Copy, PartialEq, Eq, Debug)]
pub enum Phase {
    /// Query the target for unstaged modifications.
    QueryUnstaged,
    /// Query the target for staged-but-uncommitted modifications.
    QueryStaged,
    /// Read the patch directory, or report that there is none.
    ListPatchDir,
    /// Run the patch tool on the current patch file.
    Applying,
    /// The procedure finished without error.
    Done,
    /// The procedure aborted; the error names the cause.
    Failed,
}

/// Why the procedure aborted.
#[derive(PartialEq, Eq, Debug)]
pub enum ApplyError {
    /// The target directory has unstaged modifications.
    DirtyUnstaged,
    /// The target directory has staged-but-uncommitted modifications.
    DirtyStaged,
    /// The patch tool reported failure for this patch file.
    PatchFailed(Vec<u8>),
}

/// The abstract value of an [`ApplyError`].
#[verifier::ext_equal]
pub enum ApplyErrorModel {
    DirtyUnstaged,
    DirtyStaged,
    PatchFailed(Seq<u8>),
}

impl View for ApplyError {
    type V = ApplyErrorModel;

    open spec fn view(&self) -> ApplyErrorModel {
        match self {
            ApplyError::DirtyUnstaged => ApplyErrorModel::DirtyUnstaged,
            ApplyError::DirtyStaged => ApplyErrorModel::DirtyStaged,
            ApplyError::PatchFailed(name) => ApplyErrorModel::PatchFailed(name@),
        }
    }
}

/// The abstract value of an optional error.
pub open spec fn error_view(e: Option<ApplyError>) -> Option<ApplyErrorModel> {
    match e {
        None => None,
        Some(err) => Some(err@),
    }
}

/// The abstract state of a session: the phase, the selected patch files,
/// how many of them were applied so far, and the recorded error, if any.
#[verifier::ext_equal]
pub struct SessionModel {
    pub phase: Phase,
    pub patches: Seq<Seq<u8>>,
    pub next: int,
    pub error: Option<ApplyErrorModel>,
}

impl SessionModel {
    /// Every state a session can reach satisfies this. In particular,
    /// `next` never passes the end of the patch list, a session that is
    /// still applying has a current patch, an error is recorded exactly in
    /// the failed phase, and no patch is selected before the directory was
    /// listed.
    pub open spec fn wf(self) -> bool {
        &&& 0 <= self.next <= self.patches.len()
        &&& self.phase is Applying ==> self.next < self.patches.len()
        &&& (self.phase is Failed <==> self.error is Some)
        &&& (self.phase is QueryUnstaged || self.phase is QueryStaged
            || self.phase is ListPatchDir) ==> self.patches.len() == 0 && self.next == 0
        &&& self.phase is Done ==> self.next == self.patches.len()
    }
}

/// The state of a fresh session: nothing queried, nothing selected,
/// nothing applied, no error.
pub open spec fn init_model() -> SessionModel {
    SessionModel { phase: Phase::QueryUnstaged, patches: Seq::empty(), next: 0, error: None }
}

/// How the unstaged-changes query moves the state: on a clean report the
/// staged query is next; on a dirty report the session fails at once. In
/// any other phase the event is meaningless and changes nothing.
pub open spec fn step_unstaged(m: SessionModel, clean: bool) -> SessionModel {
    if m.phase is QueryUnstaged {
        if clean {
            SessionModel { phase: Phase::QueryStaged, ..m }
        } else {
            SessionModel {
                phase: Phase::Failed,
                error: Some(ApplyErrorModel::DirtyUnstaged),
                ..m
            }
        }
    } else {
        m
    }
}

/// How the staged-changes query moves the state: on a clean report the
/// patch directory is read next; on a dirty report the session fails at
/// once.
pub open spec fn step_staged(m: SessionModel, clean: bool) -> SessionModel {
    if m.phase is QueryStaged {
        if clean {
            SessionModel { phase: Phase::ListPatchDir, ..m }
        } else {
            SessionModel { phase: Phase::Failed, error: Some(ApplyErrorModel::DirtyStaged), ..m }
        }
    } else {
        m
    }
}

/// How the directory listing moves the state. An absent patch directory
/// (`None`) is not an error: the session is done with nothing applied. A
/// listing selects exactly the patch-named entries, in listing order, and
/// the session is done at once when there are none.
pub open spec fn step_listing(m: SessionModel, listing: Option<Seq<Seq<u8>>>) -> SessionModel {
    if m.phase is ListPatchDir {
        match listing {
            None => SessionModel { phase: Phase::Done, ..m },
            Some(entries) => {
                let sel = selected_patches(entries);
                SessionModel {
                    phase: if sel.len() == 0 {
                        Phase::Done
                    } else {
                        Phase::Applying
                    },
                    patches: sel,
                    next: 0,
                    ..m
                }
            },
        }
    } else {
        m
    }
}

/// How one patch-tool outcome moves the state: success advances to the next
/// patch file, or to `Done` after the last one; failure records which patch
/// failed and stops the session, leaving the count of applied patches where
/// it stood.
pub open spec fn step_patch(m: SessionModel, ok: bool) -> SessionModel {
    if m.phase is Applying {
        if ok {
            SessionModel {
                phase: if m.next + 1 == m.patches.len() {
                    Phase::Done
                } else {
                    Phase::Applying
                },
                next: m.next + 1,
                ..m
            }
        } else {
            SessionModel {
                phase: Phase::Failed,
                error: Some(ApplyErrorModel::PatchFailed(m.patches[m.next])),
                ..m
            }
        }
    } else {
        m
    }
}

/// One apply procedure in flight. The driver reads the phase, performs the
/// external step it asks for, and reports the outcome through the matching
/// method; the session decides everything else.
pub struct ApplySession {
    phase: Phase,
    queue: Vec<Vec<u8>>,
    next: usize,
    failure: Option<ApplyError>,
}

impl View for ApplySession {
    type V = SessionModel;

    closed spec fn view(&self) -> SessionModel {
        SessionModel {
            phase: self.phase,
            patches: self.queue.deep_view(),
            next: self.next as int,
            error: error_view(self.failure),
        }
    }
}

impl ApplySession {
    /// Starts a session: the unstaged-changes query comes first.
    pub fn new() -> (s: Self)
        ensures
            s@ == init_model(),
            s@.wf(),
    {
        let s = ApplySession {
            phase: Phase::QueryUnstaged,
            queue: Vec::new(),
            next: 0,
            failure: None,
        };
        proof {
            assert(s@ =~= init_model());
        }
        s
    }

    /// The phase the session is in, naming the external step the driver
    /// must perform next, if any.
    pub fn current_phase(&self) -> (p: Phase)
        ensures
            p == self@.phase,
    {
        self.phase
    }

    /// The selected patch files, in the order they are applied.
    pub fn patches(&self) -> (r: &Vec<Vec<u8>>)
        ensures
            r.deep_view() == self@.patches,
    {
        &self.queue
    }

    /// How many patches were applied successfully so far.
    pub fn applied_count(&self) -> (n: usize)
        ensures
            n == self@.next,
    {
        self.next
    }

    /// The name of the patch file the driver must apply now.
    pub fn current_patch(&self) -> (name: &Vec<u8>)
        requires
            self@.wf(),
            self@.phase is Applying,
        ensures
            name@ == self@.patches[self@.next],
    {
        &self.queue[self.next]
    }

    /// The recorded error of a failed session, and `None` otherwise.
    pub fn error(&self) -> (e: &Option<ApplyError>)
        ensures
            error_view(*e) == self@.error,
    {
        &self.failure
    }

    /// Reports the outcome of the unstaged-changes query; `clean` says that
    /// the query found nothing.
    pub fn on_unstaged_status(&mut self, clean: bool)
        requires
            old(self)@.wf(),
            old(self)@.phase is QueryUnstaged,
        ensures
            final(self)@ == step_unstaged(old(self)@, clean),
            final(self)@.wf(),
    {
        if clean {
            self.phase = Phase::QueryStaged;
        } else {
            self.phase = Phase::Failed;
            self.failure = Some(ApplyError::DirtyUnstaged);
        }
        proof {
            assert(self@ =~= step_unstaged(old(self)@, clean));
        }
    }

    /// Reports the outcome of the staged-changes query.
    pub fn on_staged_status(&mut self, clean: bool)
        requires
            old(self)@.wf(),
            old(self)@.phase is QueryStaged,
        ensures
            final(self)@ == step_staged(old(self)@, clean),
            final(self)@.wf(),
    {
        if clean {
            self.phase = Phase::ListPatchDir;
        } else {
            self.phase = Phase::Failed;
            self.failure = Some(ApplyError::DirtyStaged);
        }
        proof {
            assert(self@ =~= step_staged(old(self)@, clean));
        }
    }

    /// Reports the patch-directory listing: `None` when the directory does
    /// not exist or is not a directory, else the file names it holds. The
    /// session selects the patch-named entries and keeps them in listing
    /// order.
    pub fn on_listing(&mut self, listing: Option<Vec<Vec<u8>>>)
        requires
            old(self)@.wf(),
            old(self)@.phase is ListPatchDir,
        ensures
            final(self)@ == step_listing(old(self)@, listing_view(listing)),
            final(self)@.wf(),
    {
        match listing {
            None => {
                self.phase = Phase::Done;
            },
            Some(entries) => {
                let sel = select_patch_names(&entries);
                if sel.len() == 0 {
                    self.phase = Phase::Done;
                } else {
                    self.phase = Phase::Applying;
                }
                self.queue = sel;
                self.next = 0;
            },
        }
        proof {
            assert(self@ =~= step_listing(old(self)@, listing_view(listing)));
        }
    }

    /// Reports the outcome of one patch-tool invocation on the current
    /// patch file.
    pub fn on_patch_status(&mut self, ok: bool)
        requires
            old(self)@.wf(),
            old(self)@.phase is Applying,
        ensures
            final(self)@ == step_patch(old(self)@, ok),
            final(self)@.wf(),
    {
        if ok {
            let len = self.queue.len();
            proof {
                assert(self.queue.deep_view().len() == self.queue@.len());
                assert(self.next < len);
            }
            self.next = self.next + 1;
            if self.next == len {
                self.phase = Phase::Done;
            }
        } else {
            let name = self.queue[self.next].clone();
            proof {
                assert(name@ =~= self@.patches[self@.next]);
            }
            self.phase = Phase::Failed;
            self.failure = Some(ApplyError::PatchFailed(name));
        }
        proof {
            assert(self@ =~= step_patch(old(self)@, ok));
        }
    }
}

/// The abstract value of an optional directory listing.
pub open spec fn listing_view(listing: Option<Vec<Vec<u8>>>) -> Option<Seq<Seq<u8>>> {
    match listing {
        None => None,
        Some(entries) => Some(entries.deep_view()),
    }
}

/// Feeds patch-tool outcomes into a state, one per invocation, for as long
/// as the session is still applying: the state a driver reaches from `m`
/// when the patch tool reports the statuses in `statuses`.
pub open spec fn run_from(m: SessionModel, statuses: Seq<bool>) -> SessionModel
    decreases statuses.len(),
{
    if m.phase is Applying && statuses.len() > 0 {
        run_from(step_patch(m, statuses[0]), statuses.skip(1))
    } else {
        m
    }
}

/// The state the whole procedure reaches: the two cleanliness queries, the
/// directory listing, then one patch-tool outcome per invocation.
pub open spec fn run_model(
    unstaged_clean: bool,
    staged_clean: bool,
    listing: Option<Seq<Seq<u8>>>,
    statuses: Seq<bool>,
) -> SessionModel {
    run_from(
        step_listing(step_staged(step_unstaged(init_model(), unstaged_clean), staged_clean), listing),
        statuses,
    )
}

/// A clean target with an absent or empty patch directory completes the
/// procedure without error and without a single patch-tool invocation.
pub proof fn lemma_clean_tree_no_patches(listing: Option<Seq<Seq<u8>>>, statuses: Seq<bool>)
    requires
        listing matches Some(entries) ==> entries.len() == 0,
    ensures
        run_model(true, true, listing, statuses).phase is Done,
        run_model(true, true, listing, statuses).next == 0,
        run_model(true, true, listing, statuses).error is None,
{
    if let Some(entries) = listing {
        crate::selection::lemma_selected_empty(entries);
    }
}

/// A dirty target aborts the procedure at once: the session fails before
/// the patch directory is even listed, no patch is selected, and no
/// patch-tool invocation happens, whatever outcomes the driver would have
/// reported.
pub proof fn lemma_dirty_tree_never_applies(
    unstaged_clean: bool,
    staged_clean: bool,
    listing: Option<Seq<Seq<u8>>>,
    statuses: Seq<bool>,
)
    requires
        !unstaged_clean || !staged_clean,
    ensures
        run_model(unstaged_clean, staged_clean, listing, statuses).phase is Failed,
        run_model(unstaged_clean, staged_clean, listing, statuses).next == 0,
        run_model(unstaged_clean, staged_clean, listing, statuses).patches.len() == 0,
        run_model(unstaged_clean, staged_clean, listing, statuses).error == Some(
            if !unstaged_clean {
                ApplyErrorModel::DirtyUnstaged
            } else {
                ApplyErrorModel::DirtyStaged
            },
        ),
{
}

/// From a session that is applying, a run of nothing but successes applies
/// every remaining patch and completes without error.
proof fn lemma_run_from_all_ok(m: SessionModel, statuses: Seq<bool>)
    requires
        m.wf(),
        m.phase is Applying,
        m.error is None,
        statuses.len() == m.patches.len() - m.next,
        forall|i: int| 0 <= i < statuses.len() ==> statuses[i],
    ensures
        run_from(m, statuses).phase is Done,
        run_from(m, statuses).next == m.patches.len(),
        run_from(m, statuses).patches == m.patches,
        run_from(m, statuses).error is None,
    decreases statuses.len(),
{
    let m1 = step_patch(m, statuses[0]);
    let rest = statuses.skip(1);
    assert(statuses.len() > 0);
    assert(run_from(m, statuses) == run_from(m1, rest));
    if m1.phase is Applying {
        assert forall|i: int| 0 <= i < rest.len() implies rest[i] by {
            assert(rest[i] == statuses[i + 1]);
        }
        lemma_run_from_all_ok(m1, rest);
    } else {
        assert(rest.len() == 0);
        assert(run_from(m1, rest) == m1);
    }
}

/// From a session that is applying, a run whose first failure comes at
/// position `k` applies exactly the `k` patches before it, then stops: the
/// session fails naming the patch at position `k`, and no later patch is
/// attempted.
proof fn lemma_run_from_first_failure(m: SessionModel, statuses: Seq<bool>, k: int)
    requires
        m.wf(),
        m.phase is Applying,
        statuses.len() <= m.patches.len() - m.next,
        0 <= k < statuses.len(),
        !statuses[k],
        forall|i: int| 0 <= i < k ==> statuses[i],
    ensures
        run_from(m, statuses).phase is Failed,
        run_from(m, statuses).next == m.next + k,
        run_from(m, statuses).patches == m.patches,
        run_from(m, statuses).error == Some(ApplyErrorModel::PatchFailed(m.patches[m.next + k])),
    decreases k,
{
    let m1 = step_patch(m, statuses[0]);
    let rest = statuses.skip(1);
    assert(run_from(m, statuses) == run_from(m1, rest));
    if k > 0 {
        assert(statuses[0]);
        assert(m1.phase is Applying);
        assert(!rest[k - 1]);
        assert forall|i: int| 0 <= i < k - 1 implies rest[i] by {
            assert(rest[i] == statuses[i + 1]);
        }
        lemma_run_from_first_failure(m1, rest, k - 1);
    } else {
        assert(!statuses[0]);
        assert(m1.phase is Failed);
        assert(run_from(m1, rest) == m1);
    }
}

/// With a clean target, a listing, and a patch tool that succeeds on every
/// file, the procedure applies exactly the patch-named entries of the
/// listing — as many invocations as there are such entries — and completes
/// without error.
pub proof fn lemma_all_patches_applied(entries: Seq<Seq<u8>>, statuses: Seq<bool>)
    requires
        statuses.len() == selected_patches(entries).len(),
        forall|i: int| 0 <= i < statuses.len() ==> statuses[i],
    ensures
        run_model(true, true, Some(entries), statuses).phase is Done,
        run_model(true, true, Some(entries), statuses).next == selected_patches(entries).len(),
        run_model(true, true, Some(entries), statuses).patches == selected_patches(entries),
        run_model(true, true, Some(entries), statuses).error is None,
{
    let m = step_listing(step_staged(step_unstaged(init_model(), true), true), Some(entries));
    if selected_patches(entries).len() > 0 {
        lemma_run_from_all_ok(m, statuses);
    }
}

/// With a clean target and a listing, a patch tool that fails first on the
/// patch at position `k` of the selection stops the procedure there: the
/// `k` patches before it were applied, the failing one is named in the
/// error, and none after it was attempted.
pub proof fn lemma_patch_failure_aborts(entries: Seq<Seq<u8>>, statuses: Seq<bool>, k: int)
    requires
        statuses.len() <= selected_patches(entries).len(),
        0 <= k < statuses.len(),
        !statuses[k],
        forall|i: int| 0 <= i < k ==> statuses[i],
    ensures
        run_model(true, true, Some(entries), statuses).phase is Failed,
        run_model(true, true, Some(entries), statuses).next == k,
        run_model(true, true, Some(entries), statuses).error == Some(
            ApplyErrorModel::PatchFailed(selected_patches(entries)[k]),
        ),
{
    let m = step_listing(step_staged(step_unstaged(init_model(), true), true), Some(entries));
    lemma_run_from_first_failure(m, statuses, k);
}

} // verus!
