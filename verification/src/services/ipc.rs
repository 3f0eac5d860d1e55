//! POSIX signal state: pending sets, blocked masks and dispositions per process.

use vstd::prelude::*;
use std::collections::BTreeMap;
use crate::abi::{EINVAL, ESRCH, SIG_BLOCK, SIG_MAX, SIG_MIN, SIG_SETMASK, SIG_UNBLOCK, SIGKILL, SIGSTOP};

verus! {

broadcast use {vstd::std_specs::btree::group_btree_axioms, vstd::laws_cmp::group_laws_cmp};

/// A set of signals: bit `n - 1` stands for signal `n`.
pub type SigSet = u64;

/// A signal disposition as installed by `rt_sigaction`.
#[derive(Debug, Clone, Copy, PartialEq, Eq, Structural)]
pub struct SigAction {
    /// Handler address, `SIG_DFL` or `SIG_IGN`.
    pub sa_handler: usize,
    /// `SA_*` flags.
    pub sa_flags: u64,
    /// Address the handler returns to.
    pub sa_restorer: usize,
    /// Signals blocked while the handler runs.
    pub sa_mask: SigSet,
}

impl SigAction {
    /// The default disposition: everything zero.
    pub open spec fn spec_default() -> SigAction {
        SigAction { sa_handler: 0, sa_flags: 0, sa_restorer: 0, sa_mask: 0 }
    }

    /// The default disposition.
    pub fn default_action() -> (r: SigAction)
        ensures
            r == Self::spec_default(),
    {
        SigAction { sa_handler: 0, sa_flags: 0, sa_restorer: 0, sa_mask: 0 }
    }
}

/// Mask of signals that can never be blocked: `SIGKILL` and `SIGSTOP`.
pub const UNBLOCKABLE: u64 = 0x4_0100;

/// The bit standing for signal `sig`.
pub open spec fn sig_bit(sig: i32) -> u64 {
    (1u64 << ((sig - 1) as u64)) as u64
}

/// `sig` is a valid signal number.
pub open spec fn valid_sig(sig: i32) -> bool {
    SIG_MIN <= sig <= SIG_MAX
}

/// The bit standing for signal `sig` (1 to 31).
pub fn sig_mask_bit(sig: i32) -> (r: u64)
    requires
        valid_sig(sig),
    ensures
        r == sig_bit(sig),
{
    1u64 << ((sig - 1) as u64)
}

/// Per-process signal state of the whole system.
pub struct SignalManager {
    pending_signals: BTreeMap<i32, u64>,
    blocked_masks: BTreeMap<i32, SigSet>,
    signal_actions: BTreeMap<i32, [SigAction; 32]>,
}

/// No mask of `m` blocks `SIGKILL` or `SIGSTOP`.
pub open spec fn masks_ok(m: Map<i32, u64>) -> bool {
    forall|pid: i32| #[trigger] m.contains_key(pid) ==> m[pid] & UNBLOCKABLE == 0
}

proof fn lemma_masks_ok_same(a: Map<i32, u64>, b: Map<i32, u64>)
    requires
        masks_ok(a),
        a == b,
    ensures
        masks_ok(b),
{
}

proof fn lemma_masks_ok_insert(a: Map<i32, u64>, pid: i32, v: u64)
    requires
        masks_ok(a),
        v & UNBLOCKABLE == 0,
    ensures
        masks_ok(a.insert(pid, v)),
{
    assert forall|p: i32| #[trigger] a.insert(pid, v).contains_key(p) implies a.insert(pid, v)[p] & UNBLOCKABLE == 0 by {
        if p != pid {
            assert(a.contains_key(p));
        }
    }
}

proof fn lemma_masks_ok_remove(a: Map<i32, u64>, pid: i32)
    requires
        masks_ok(a),
    ensures
        masks_ok(a.remove(pid)),
{
    assert forall|p: i32| #[trigger] a.remove(pid).contains_key(p) implies a.remove(pid)[p] & UNBLOCKABLE == 0 by {
        assert(a.contains_key(p));
    }
}

/// The pending set recorded for `pid` in `m` (empty when absent).
pub open spec fn lookup_or_zero(m: Map<i32, u64>, pid: i32) -> u64 {
    if m.contains_key(pid) { m[pid] } else { 0 }
}

impl SignalManager {
    /// Pending signal sets by process.
    pub closed spec fn pending(&self) -> Map<i32, u64> {
        self.pending_signals@
    }

    /// Blocked masks by process.
    pub closed spec fn masks(&self) -> Map<i32, u64> {
        self.blocked_masks@
    }

    /// Dispositions by process; signal `n` is at index `n`.
    pub closed spec fn actions(&self) -> Map<i32, Seq<SigAction>> {
        self.signal_actions@.map_values(|a: [SigAction; 32]| a@)
    }

    /// The disposition of `sig` for `pid` (the default when none is recorded).
    pub open spec fn action_of(&self, pid: i32, sig: i32) -> SigAction {
        if valid_sig(sig) && self.actions().contains_key(pid) {
            self.actions()[pid][sig as int]
        } else {
            SigAction::spec_default()
        }
    }

    /// No process ever has `SIGKILL` or `SIGSTOP` blocked.
    pub open spec fn wf(&self) -> bool {
        masks_ok(self.masks())
    }

    /// No signal state at all.
    pub fn new() -> (r: Self)
        ensures
            r.wf(),
            r.pending() == Map::<i32, u64>::empty(),
            r.masks() == Map::<i32, u64>::empty(),
            r.actions() == Map::<i32, Seq<SigAction>>::empty(),
    {
        let r = SignalManager {
            pending_signals: BTreeMap::new(),
            blocked_masks: BTreeMap::new(),
            signal_actions: BTreeMap::new(),
        };
        proof {
            assert(r.actions() =~= Map::<i32, Seq<SigAction>>::empty());
        }
        r
    }

    /// Marks `sig` pending for `pid`. The target must be a positive PID of an
    /// existing process (`target_exists`), and `sig` a valid signal number.
    pub fn send_signal(&mut self, pid: i32, sig: i32, target_exists: bool) -> (r: Result<(), i32>)
        requires
            old(self).wf(),
        ensures
            final(self).wf(),
            (pid <= 0 || !valid_sig(sig)) ==> r == Err::<(), i32>(EINVAL) && *final(self) == *old(self),
            (pid > 0 && valid_sig(sig) && !target_exists) ==> r == Err::<(), i32>(ESRCH) && *final(self) == *old(self),
            (pid > 0 && valid_sig(sig) && target_exists) ==> {
                &&& r is Ok
                &&& final(self).pending() == old(self).pending().insert(pid, lookup_or_zero(old(self).pending(), pid) | sig_bit(sig))
                &&& final(self).masks() == old(self).masks()
                &&& final(self).actions() == old(self).actions()
            },
    {
        if pid <= 0 || sig < SIG_MIN || sig > SIG_MAX {
            return Err(EINVAL);
        }
        if !target_exists {
            return Err(ESRCH);
        }
        let cur = self.get_pending(pid);
        let bit = sig_mask_bit(sig);
        self.pending_signals.insert(pid, cur | bit);
        proof {
            lemma_masks_ok_same(old(self).masks(), self.masks());
        }
        Ok(())
    }

    /// The pending signal set of `pid`.
    pub fn get_pending(&self, pid: i32) -> (r: u64)
        ensures
            r == lookup_or_zero(self.pending(), pid),
    {
        match self.pending_signals.get(&pid) {
            Some(m) => *m,
            None => 0,
        }
    }

    /// Clears `sig` from the pending set of `pid` (only if a set is recorded).
    pub fn clear_pending(&mut self, pid: i32, sig: i32)
        requires
            old(self).wf(),
        ensures
            final(self).wf(),
            final(self).masks() == old(self).masks(),
            final(self).actions() == old(self).actions(),
            (valid_sig(sig) && old(self).pending().contains_key(pid)) ==> final(self).pending()
                == old(self).pending().insert(pid, old(self).pending()[pid] & !sig_bit(sig)),
            !(valid_sig(sig) && old(self).pending().contains_key(pid)) ==> final(self).pending() == old(self).pending(),
    {
        if sig >= SIG_MIN && sig <= SIG_MAX {
            match self.pending_signals.get(&pid) {
                Some(m) => {
                    let v = *m & !sig_mask_bit(sig);
                    self.pending_signals.insert(pid, v);
                },
                None => {},
            }
        }
        proof {
            lemma_masks_ok_same(old(self).masks(), self.masks());
        }
    }

    /// The blocked mask of `pid`.
    pub fn get_procmask(&self, pid: i32) -> (r: SigSet)
        ensures
            r == lookup_or_zero(self.masks(), pid),
    {
        match self.blocked_masks.get(&pid) {
            Some(m) => *m,
            None => 0,
        }
    }

    /// Whether `pid` has a pending signal that is not blocked.
    pub fn has_unblocked_signals(&self, pid: i32) -> (r: bool)
        ensures
            r == (lookup_or_zero(self.pending(), pid) & !lookup_or_zero(self.masks(), pid) != 0),
    {
        let pending = self.get_pending(pid);
        let blocked = self.get_procmask(pid);
        (pending & !blocked) != 0
    }

    /// Changes the blocked mask of `pid` as `how` says (`SIG_BLOCK`,
    /// `SIG_UNBLOCK`, `SIG_SETMASK`), never blocking `SIGKILL` or `SIGSTOP`;
    /// returns the previous mask.
    pub fn set_procmask(&mut self, pid: i32, how: i32, new_set: SigSet) -> (r: Result<SigSet, i32>)
        requires
            old(self).wf(),
        ensures
            final(self).wf(),
            final(self).pending() == old(self).pending(),
            final(self).actions() == old(self).actions(),
            ({
                let cur = lookup_or_zero(old(self).masks(), pid);
                let eff = new_set & !UNBLOCKABLE;
                if how == SIG_BLOCK {
                    r == Ok::<SigSet, i32>(cur) && final(self).masks() == old(self).masks().insert(pid, cur | eff)
                } else if how == SIG_UNBLOCK {
                    r == Ok::<SigSet, i32>(cur) && final(self).masks() == old(self).masks().insert(pid, cur & !eff)
                } else if how == SIG_SETMASK {
                    r == Ok::<SigSet, i32>(cur) && final(self).masks() == old(self).masks().insert(pid, eff)
                } else {
                    r == Err::<SigSet, i32>(EINVAL) && final(self).masks() == old(self).masks().insert(pid, cur)
                }
            }),
    {
        let effective_set = new_set & !UNBLOCKABLE;
        let current = self.get_procmask(pid);
        proof {
            if self.masks().contains_key(pid) {
                assert(current & UNBLOCKABLE == 0);
            } else {
                assert(0u64 & UNBLOCKABLE == 0) by (bit_vector);
            }
            assert(current & UNBLOCKABLE == 0 ==> (current | effective_set) & UNBLOCKABLE == 0) by (bit_vector)
                requires effective_set == new_set & !UNBLOCKABLE;
            assert(current & UNBLOCKABLE == 0 ==> (current & !effective_set) & UNBLOCKABLE == 0) by (bit_vector);
            assert(effective_set & UNBLOCKABLE == 0) by (bit_vector)
                requires effective_set == new_set & !UNBLOCKABLE;
        }
        let ghost m0 = self.masks();
        let v = if how == SIG_BLOCK {
            current | effective_set
        } else if how == SIG_UNBLOCK {
            current & !effective_set
        } else if how == SIG_SETMASK {
            effective_set
        } else {
            current
        };
        self.blocked_masks.insert(pid, v);
        proof {
            lemma_masks_ok_insert(m0, pid, v);
        }
        if how == SIG_BLOCK || how == SIG_UNBLOCK || how == SIG_SETMASK {
            Ok(current)
        } else {
            Err(EINVAL)
        }
    }

    /// The disposition of `sig` for `pid`.
    pub fn get_action(&self, pid: i32, sig: i32) -> (r: SigAction)
        requires
            self.wf(),
        ensures
            r == self.action_of(pid, sig),
    {
        if sig < SIG_MIN || sig > SIG_MAX {
            return SigAction::default_action();
        }
        match self.signal_actions.get(&pid) {
            Some(a) => {
                proof {
                    assert(self.actions().contains_key(pid));
                }
                a[sig as usize]
            },
            None => SigAction::default_action(),
        }
    }

    /// Installs `act` as the disposition of `sig` for `pid` and returns the
    /// previous one; `SIGKILL` and `SIGSTOP` cannot be caught or ignored.
    pub fn set_action(&mut self, pid: i32, sig: i32, act: SigAction) -> (r: Result<SigAction, i32>)
        requires
            old(self).wf(),
        ensures
            final(self).wf(),
            final(self).pending() == old(self).pending(),
            final(self).masks() == old(self).masks(),
            (!valid_sig(sig) || sig == SIGKILL || sig == SIGSTOP) ==> r == Err::<SigAction, i32>(EINVAL)
                && final(self).actions() == old(self).actions(),
            (valid_sig(sig) && sig != SIGKILL && sig != SIGSTOP) ==> {
                &&& r == Ok::<SigAction, i32>(old(self).action_of(pid, sig))
                &&& final(self).actions().contains_key(pid)
                &&& forall|s: i32| #![trigger final(self).action_of(pid, s)] final(self).action_of(pid, s)
                    == if s == sig { act } else { old(self).action_of(pid, s) }
                &&& forall|p: i32| p != pid ==> #[trigger] final(self).actions().contains_key(p)
                    == old(self).actions().contains_key(p)
                &&& forall|p: i32| p != pid && old(self).actions().contains_key(p) ==> #[trigger] final(self).actions()[p]
                    == old(self).actions()[p]
            },
    {
        if sig < SIG_MIN || sig > SIG_MAX {
            return Err(EINVAL);
        }
        if sig == SIGKILL || sig == SIGSTOP {
            return Err(EINVAL);
        }
        let mut actions: [SigAction; 32] = match self.signal_actions.get(&pid) {
            Some(a) => {
                proof {
                    assert(self.actions().contains_key(pid));
                }
                *a
            },
            None => [SigAction::default_action(); 32],
        };
        let old_act = actions[sig as usize];
        actions[sig as usize] = act;
        let ghost a0 = self.actions();
        self.signal_actions.insert(pid, actions);
        proof {
            lemma_masks_ok_same(old(self).masks(), self.masks());
            assert(self.actions() =~= a0.insert(pid, actions@));
            assert forall|s: i32| #![trigger self.action_of(pid, s)] self.action_of(pid, s)
                == if s == sig { act } else { old(self).action_of(pid, s) } by {
                if valid_sig(s) && s != sig && !old(self).actions().contains_key(pid) {
                    assert(actions@[s as int] == SigAction::spec_default());
                }
            }
        }
        Ok(old_act)
    }

    /// Forgets all signal state of `pid`.
    pub fn cleanup_process(&mut self, pid: i32)
        requires
            old(self).wf(),
        ensures
            final(self).wf(),
            final(self).pending() == old(self).pending().remove(pid),
            final(self).masks() == old(self).masks().remove(pid),
            final(self).actions() == old(self).actions().remove(pid),
    {
        let ghost a0 = self.actions();
        self.pending_signals.remove(&pid);
        self.blocked_masks.remove(&pid);
        self.signal_actions.remove(&pid);
        proof {
            assert(self.actions() =~= a0.remove(pid));
            lemma_masks_ok_remove(old(self).masks(), pid);
        }
    }
}

/// `SIGKILL` and `SIGSTOP` stay unblocked whatever `set_procmask` is asked
/// to do: after any call the mask of every process leaves both clear.
pub proof fn lemma_kill_and_stop_never_blocked(m: SignalManager, pid: i32)
    requires
        m.wf(),
    ensures
        lookup_or_zero(m.masks(), pid) & sig_bit(SIGKILL) == 0,
        lookup_or_zero(m.masks(), pid) & sig_bit(SIGSTOP) == 0,
{
    let x = lookup_or_zero(m.masks(), pid);
    if m.masks().contains_key(pid) {
        assert(x & UNBLOCKABLE == 0);
    }
    if !m.masks().contains_key(pid) {
        assert(0u64 & UNBLOCKABLE == 0) by (bit_vector);
    }
    assert(x & UNBLOCKABLE == 0 ==> x & (1u64 << 8u64) == 0 && x & (1u64 << 18u64) == 0) by (bit_vector);
    assert(sig_bit(SIGKILL) == (1u64 << 8u64));
    assert(sig_bit(SIGSTOP) == (1u64 << 18u64));
}

} // verus!
