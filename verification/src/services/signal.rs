//! Signal delivery on the way back to user mode, handler entry and
//! `rt_sigreturn`.

use vstd::prelude::*;
use crate::abi::{
    SA_NODEFER, SA_RESETHAND, SIG_DFL, SIG_IGN, SIG_SETMASK, SIGCHLD, SIGSTOP, SIGTSTP, SIGTTIN,
    SIGTTOU, SIGURG, SIGWINCH,
};
use crate::arch::frames::{SyscallRegisters, TrapFrame};
use crate::services::ipc::{SignalManager, SigAction, SigSet, sig_bit, sig_mask_bit, valid_sig, lookup_or_zero};

verus! {

/// Size of the System V red zone below the user stack pointer.
pub const RED_ZONE_SIZE: usize = 128;
/// Size in bytes of a `SignalFrame` (nineteen 64-bit slots).
pub const SIGNAL_FRAME_SIZE: usize = 152;
/// RFLAGS bits user code may restore: arithmetic flags and direction.
pub const USER_RFLAGS_MASK: usize = 0xCD5;
/// RFLAGS bits always set on return to user mode: reserved bit 1 and IF.
pub const USER_RFLAGS_RESERVED: usize = 0x202;

/// The frame pushed on the user stack before entering a signal handler.
#[derive(Debug, Clone, Copy, PartialEq, Eq, Structural)]
pub struct SignalFrame {
    pub restorer: u64,
    pub signum: u64,
    pub old_mask: SigSet,
    pub r15: u64,
    pub r14: u64,
    pub r13: u64,
    pub r12: u64,
    pub rbp: u64,
    pub rbx: u64,
    pub r9: u64,
    pub r8: u64,
    pub r10: u64,
    pub rdx: u64,
    pub rsi: u64,
    pub rdi: u64,
    pub rax: u64,
    /// Interrupted user RIP.
    pub rcx: u64,
    /// Interrupted user RFLAGS.
    pub r11: u64,
    /// Interrupted user stack pointer.
    pub rsp: u64,
}

/// Signals whose default action is to be ignored.
pub open spec fn spec_default_ignore(sig: i32) -> bool {
    sig == SIGCHLD || sig == SIGURG || sig == SIGWINCH
}

/// Signals whose default action is to stop the process.
pub open spec fn spec_default_stop(sig: i32) -> bool {
    sig == SIGSTOP || sig == SIGTSTP || sig == SIGTTIN || sig == SIGTTOU
}

/// Whether `sig` is ignored by default.
pub fn is_default_ignore(sig: i32) -> (r: bool)
    ensures
        r == spec_default_ignore(sig),
{
    sig == SIGCHLD || sig == SIGURG || sig == SIGWINCH
}

/// Whether `sig` stops the process by default.
pub fn is_default_stop(sig: i32) -> (r: bool)
    ensures
        r == spec_default_stop(sig),
{
    sig == SIGSTOP || sig == SIGTSTP || sig == SIGTTIN || sig == SIGTTOU
}

/// What happens to the pending signals of a process returning to user mode.
#[derive(Debug, Clone, Copy, PartialEq, Eq, Structural)]
pub enum SignalDecision {
    /// Nothing to deliver.
    Nothing,
    /// The process is terminated by this signal.
    Terminate(i32),
    /// The handler of this signal is to be entered; `blocked` is the mask at
    /// the time of delivery.
    Handle { sig: i32, action: SigAction, blocked: SigSet },
}

/// `sig` is discarded when pending under `act`.
pub open spec fn discarded(act: SigAction, sig: i32) -> bool {
    act.sa_handler == SIG_IGN || (act.sa_handler == SIG_DFL && spec_default_ignore(sig))
}

/// `sig` stays pending under `act` (stop signals until job control exists).
pub open spec fn deferred(act: SigAction, sig: i32) -> bool {
    act.sa_handler == SIG_DFL && spec_default_stop(sig)
}

/// The first signal from `from` on that is in `unblocked` and neither
/// discarded nor deferred.
pub open spec fn first_deliverable(sm: SignalManager, pid: i32, unblocked: u64, from: i32) -> Option<i32>
    decreases 32 - from,
{
    if from < 1 || from > 31 {
        None
    } else if unblocked & sig_bit(from) != 0 && !discarded(sm.action_of(pid, from), from)
        && !deferred(sm.action_of(pid, from), from) {
        Some(from)
    } else {
        first_deliverable(sm, pid, unblocked, (from + 1) as i32)
    }
}

/// The bits of the signals below `upto` that are in `unblocked` and discarded.
pub open spec fn discarded_bits(sm: SignalManager, pid: i32, unblocked: u64, upto: i32) -> u64
    decreases upto,
{
    if upto <= 1 {
        0
    } else {
        let prev = discarded_bits(sm, pid, unblocked, (upto - 1) as i32);
        let s = (upto - 1) as i32;
        if unblocked & sig_bit(s) != 0 && discarded(sm.action_of(pid, s), s) {
            prev | sig_bit(s)
        } else {
            prev
        }
    }
}

/// The pending signals of `pid` that are not blocked.
pub open spec fn unblocked_of(sm: SignalManager, pid: i32) -> u64 {
    lookup_or_zero(sm.pending(), pid) & !lookup_or_zero(sm.masks(), pid)
}

/// The signal selected for delivery to `pid`, if any.
pub open spec fn selected(sm: SignalManager, pid: i32) -> Option<i32> {
    first_deliverable(sm, pid, unblocked_of(sm, pid), 1)
}

/// The pending bits that selection clears: the discarded signals below the
/// selected one (all of them when none is selected) and the selected one.
pub open spec fn cleared_by_selection(sm: SignalManager, pid: i32) -> u64 {
    match selected(sm, pid) {
        Some(s) => discarded_bits(sm, pid, unblocked_of(sm, pid), s) | sig_bit(s),
        None => discarded_bits(sm, pid, unblocked_of(sm, pid), 32),
    }
}

/// What selection decides for `pid`.
pub open spec fn decision_for(sm: SignalManager, pid: i32) -> SignalDecision {
    match selected(sm, pid) {
        None => SignalDecision::Nothing,
        Some(s) => if sm.action_of(pid, s).sa_handler == SIG_DFL {
            SignalDecision::Terminate(s)
        } else {
            SignalDecision::Handle {
                sig: s,
                action: sm.action_of(pid, s),
                blocked: lookup_or_zero(sm.masks(), pid),
            }
        },
    }
}

/// Picks the signal to act on for `pid`: discarded signals are cleared on
/// the way, deferred ones stay pending, and the first deliverable one is
/// cleared and returned with its disposition.
pub fn select_signal(sm: &mut SignalManager, pid: i32) -> (r: SignalDecision)
    requires
        old(sm).wf(),
    ensures
        final(sm).wf(),
        final(sm).masks() == old(sm).masks(),
        final(sm).actions() == old(sm).actions(),
        r == decision_for(*old(sm), pid),
        unblocked_of(*old(sm), pid) == 0 ==> final(sm).pending() == old(sm).pending(),
        unblocked_of(*old(sm), pid) != 0 ==> final(sm).pending() == old(sm).pending().insert(
            pid,
            lookup_or_zero(old(sm).pending(), pid) & !cleared_by_selection(*old(sm), pid),
        ),
{
    let pending = sm.get_pending(pid);
    let blocked = sm.get_procmask(pid);
    let unblocked = pending & !blocked;
    if unblocked == 0 {
        proof {
            assert(first_deliverable(*old(sm), pid, unblocked, 1) is None) by {
                lemma_none_deliverable_when_empty(*old(sm), pid, unblocked, 1);
            }
        }
        return SignalDecision::Nothing;
    }
    proof {
        if !old(sm).pending().contains_key(pid) {
            assert(0u64 & !blocked == 0) by (bit_vector);
        }
    }
    let ghost sm0 = *sm;
    proof {
        assert(discarded_bits(sm0, pid, unblocked, 1) == 0);
        assert(pending & !0u64 == pending) by (bit_vector);
        assert(sm0.pending().insert(pid, pending & !discarded_bits(sm0, pid, unblocked, 1)) =~= sm0.pending());
    }
    let mut sig: i32 = 1;
    while sig <= 31
        invariant
            1 <= sig <= 32,
            sm.wf(),
            sm0.wf(),
            sm0 == *old(sm),
            sm0.pending().contains_key(pid),
            sm.masks() == sm0.masks(),
            sm.actions() == sm0.actions(),
            pending == lookup_or_zero(sm0.pending(), pid),
            blocked == lookup_or_zero(sm0.masks(), pid),
            unblocked == pending & !blocked,
            unblocked != 0,
            sm.pending() == sm0.pending().insert(pid, pending & !discarded_bits(sm0, pid, unblocked, sig)),
            first_deliverable(sm0, pid, unblocked, 1) == first_deliverable(sm0, pid, unblocked, sig),
        decreases 32 - sig,
    {
        let bit = sig_mask_bit(sig);
        if unblocked & bit != 0 {
            let action = sm.get_action(pid, sig);
            proof {
                assert(sm.action_of(pid, sig) == sm0.action_of(pid, sig));
            }
            if action.sa_handler == SIG_IGN || (action.sa_handler == SIG_DFL && is_default_ignore(sig)) {
                sm.clear_pending(pid, sig);
                proof {
                    let d = discarded_bits(sm0, pid, unblocked, sig);
                    assert((pending & !d) & !bit == pending & !(d | bit)) by (bit_vector);
                    assert(sm.pending() =~= sm0.pending().insert(pid, pending & !discarded_bits(sm0, pid, unblocked, (sig + 1) as i32)));
                }
                sig += 1;
                continue;
            }
            if action.sa_handler == SIG_DFL && is_default_stop(sig) {
                proof {
                    assert(discarded_bits(sm0, pid, unblocked, (sig + 1) as i32) == discarded_bits(sm0, pid, unblocked, sig));
                }
                sig += 1;
                continue;
            }
            sm.clear_pending(pid, sig);
            proof {
                let d = discarded_bits(sm0, pid, unblocked, sig);
                assert((pending & !d) & !bit == pending & !(d | bit)) by (bit_vector);
                assert(sm.pending() =~= sm0.pending().insert(pid, pending & !(d | bit)));
                assert(first_deliverable(sm0, pid, unblocked, sig) == Some(sig));
            }
            if action.sa_handler == SIG_DFL {
                return SignalDecision::Terminate(sig);
            }
            return SignalDecision::Handle { sig, action, blocked };
        }
        proof {
            assert(discarded_bits(sm0, pid, unblocked, (sig + 1) as i32) == discarded_bits(sm0, pid, unblocked, sig));
        }
        sig += 1;
    }
    SignalDecision::Nothing
}

/// Signal numbers are the bits of a mask from the lowest up: signal 1 is
/// bit 0 and each next signal the next bit.
pub proof fn lemma_signal_mask_bits(a: i32)
    requires
        1 <= a < 31,
    ensures
        sig_bit(1) == 1,
        sig_bit((a + 1) as i32) == 2 * sig_bit(a),
{
    let x = (a - 1) as u64;
    assert(1u64 << 0u64 == 1 && (x < 30 ==> (1u64 << ((x + 1) as u64)) == 2 * (1u64 << x))) by (bit_vector);
}

/// Distinct signals have disjoint bits.
pub proof fn lemma_sig_bits_disjoint(a: i32, b: i32)
    requires
        1 <= a <= 31,
        1 <= b <= 31,
        a != b,
    ensures
        sig_bit(a) & sig_bit(b) == 0,
{
    let x = (a - 1) as u64;
    let y = (b - 1) as u64;
    assert(x < 64 && y < 64 && x != y ==> (1u64 << x) & (1u64 << y) == 0) by (bit_vector);
}

proof fn lemma_first_deliverable_is_deliverable(sm: SignalManager, pid: i32, unblocked: u64, from: i32)
    ensures
        first_deliverable(sm, pid, unblocked, from) matches Some(s) ==> {
            &&& 1 <= s <= 31
            &&& from <= s
            &&& unblocked & sig_bit(s) != 0
            &&& !discarded(sm.action_of(pid, s), s)
            &&& !deferred(sm.action_of(pid, s), s)
        },
    decreases 32 - from,
{
    if 1 <= from <= 31 {
        lemma_first_deliverable_is_deliverable(sm, pid, unblocked, (from + 1) as i32);
    }
}

proof fn lemma_discarded_bits_without(sm: SignalManager, pid: i32, unblocked: u64, upto: i32, x: i32)
    requires
        1 <= x <= 31,
        upto <= 32,
        !discarded(sm.action_of(pid, x), x) || unblocked & sig_bit(x) == 0,
    ensures
        discarded_bits(sm, pid, unblocked, upto) & sig_bit(x) == 0,
    decreases upto,
{
    let bx = sig_bit(x);
    if upto <= 1 {
        assert(0u64 & bx == 0) by (bit_vector);
    } else {
        lemma_discarded_bits_without(sm, pid, unblocked, (upto - 1) as i32, x);
        let prev = discarded_bits(sm, pid, unblocked, (upto - 1) as i32);
        let t = (upto - 1) as i32;
        if unblocked & sig_bit(t) != 0 && discarded(sm.action_of(pid, t), t) {
            lemma_sig_bits_disjoint(t, x);
            let bt = sig_bit(t);
            assert(prev & bx == 0 && bt & bx == 0 ==> (prev | bt) & bx == 0) by (bit_vector);
        }
    }
}

/// The job-control stop signals (`SIGSTOP`, `SIGTSTP`, `SIGTTIN`,
/// `SIGTTOU`) left at their default disposition are never delivered:
/// selection neither terminates the process with one nor runs a handler
/// for it, and its pending bit is kept.
pub proof fn lemma_default_stop_signals_stay_pending(sm: SignalManager, pid: i32, sig: i32)
    requires
        sig == SIGSTOP || sig == SIGTSTP || sig == SIGTTIN || sig == SIGTTOU,
        sm.action_of(pid, sig).sa_handler == SIG_DFL,
    ensures
        decision_for(sm, pid) != SignalDecision::Terminate(sig),
        !(decision_for(sm, pid) matches SignalDecision::Handle { sig: s, .. } && s == sig),
        cleared_by_selection(sm, pid) & sig_bit(sig) == 0,
{
    let u = unblocked_of(sm, pid);
    lemma_first_deliverable_is_deliverable(sm, pid, u, 1);
    assert(!discarded(sm.action_of(pid, sig), sig));
    match selected(sm, pid) {
        Some(t) => {
            assert(t != sig);
            lemma_discarded_bits_without(sm, pid, u, t, sig);
            lemma_sig_bits_disjoint(t, sig);
            let d = discarded_bits(sm, pid, u, t);
            let bt = sig_bit(t);
            let bx = sig_bit(sig);
            assert(d & bx == 0 && bt & bx == 0 ==> (d | bt) & bx == 0) by (bit_vector);
        },
        None => {
            lemma_discarded_bits_without(sm, pid, u, 32, sig);
        },
    }
}

/// Under `act`, pending signal `sig` is never delivered: it is ignored,
/// or left at the default action of a signal that is ignored (`SIGCHLD`,
/// `SIGURG`, `SIGWINCH`) or that stops the process (`SIGSTOP`, `SIGTSTP`,
/// `SIGTTIN`, `SIGTTOU`).
pub open spec fn never_delivered(act: SigAction, sig: i32) -> bool {
    act.sa_handler == SIG_IGN || (act.sa_handler == SIG_DFL && (
        sig == SIGCHLD || sig == SIGURG || sig == SIGWINCH
        || sig == SIGSTOP || sig == SIGTSTP || sig == SIGTTIN || sig == SIGTTOU))
}

proof fn lemma_first_deliverable_minimal(sm: SignalManager, pid: i32, unblocked: u64, from: i32)
    requires
        1 <= from <= 32,
    ensures
        match first_deliverable(sm, pid, unblocked, from) {
            Some(s) => forall|t: i32| from <= t < s ==>
                !(unblocked & sig_bit(t) != 0 && !never_delivered(#[trigger] sm.action_of(pid, t), t)),
            None => forall|t: i32| from <= t <= 31 ==>
                !(unblocked & sig_bit(t) != 0 && !never_delivered(#[trigger] sm.action_of(pid, t), t)),
        },
    decreases 32 - from,
{
    if from <= 31 {
        lemma_first_deliverable_minimal(sm, pid, unblocked, (from + 1) as i32);
    }
}

/// What selection decides, by what is pending and unblocked: nothing when
/// every such signal is never delivered under its disposition
/// (`never_delivered`); otherwise the lowest-numbered other one, which
/// terminates the process under the default action and enters its handler
/// (with the mask at the time) under a handler.
pub proof fn lemma_selection_by_disposition(sm: SignalManager, pid: i32)
    ensures
        ({
            let u = unblocked_of(sm, pid);
            let live = |t: i32| 1 <= t <= 31 && u & sig_bit(t) != 0 && !never_delivered(sm.action_of(pid, t), t);
            match decision_for(sm, pid) {
                SignalDecision::Nothing => forall|t: i32| #![trigger sm.action_of(pid, t)] !live(t),
                SignalDecision::Terminate(s) => live(s) && sm.action_of(pid, s).sa_handler == SIG_DFL
                    && forall|t: i32| #![trigger sm.action_of(pid, t)] t < s ==> !live(t),
                SignalDecision::Handle { sig: s, action, blocked } => live(s) && action == sm.action_of(pid, s)
                    && action.sa_handler != SIG_DFL && action.sa_handler != SIG_IGN
                    && blocked == lookup_or_zero(sm.masks(), pid)
                    && forall|t: i32| #![trigger sm.action_of(pid, t)] t < s ==> !live(t),
            }
        }),
{
    let u = unblocked_of(sm, pid);
    lemma_first_deliverable_is_deliverable(sm, pid, u, 1);
    lemma_first_deliverable_minimal(sm, pid, u, 1);
}

/// A blocked signal is never delivered and stays pending: selection
/// neither terminates the process with it nor runs its handler, and keeps
/// its pending bit.
pub proof fn lemma_blocked_signal_stays_pending(sm: SignalManager, pid: i32, sig: i32)
    requires
        1 <= sig <= 31,
        lookup_or_zero(sm.masks(), pid) & sig_bit(sig) != 0,
    ensures
        decision_for(sm, pid) != SignalDecision::Terminate(sig),
        !(decision_for(sm, pid) matches SignalDecision::Handle { sig: s, .. } && s == sig),
        cleared_by_selection(sm, pid) & sig_bit(sig) == 0,
{
    let u = unblocked_of(sm, pid);
    let p = lookup_or_zero(sm.pending(), pid);
    let m = lookup_or_zero(sm.masks(), pid);
    let x = (sig - 1) as u64;
    assert(x < 64 && m & (1u64 << x) != 0 ==> (p & !m) & (1u64 << x) == 0) by (bit_vector);
    assert(u & sig_bit(sig) == 0);
    lemma_first_deliverable_is_deliverable(sm, pid, u, 1);
    match selected(sm, pid) {
        Some(t) => {
            assert(t != sig);
            lemma_discarded_bits_without(sm, pid, u, t, sig);
            lemma_sig_bits_disjoint(t, sig);
            let d = discarded_bits(sm, pid, u, t);
            let bt = sig_bit(t);
            let bx = sig_bit(sig);
            assert(d & bx == 0 && bt & bx == 0 ==> (d | bt) & bx == 0) by (bit_vector);
        },
        None => {
            lemma_discarded_bits_without(sm, pid, u, 32, sig);
        },
    }
}

proof fn lemma_none_deliverable_when_empty(sm: SignalManager, pid: i32, unblocked: u64, from: i32)
    requires
        unblocked == 0,
    ensures
        first_deliverable(sm, pid, unblocked, from) is None,
    decreases 32 - from,
{
    if 1 <= from <= 31 {
        assert(0u64 & sig_bit(from) == 0) by (bit_vector);
        lemma_none_deliverable_when_empty(sm, pid, unblocked, (from + 1) as i32);
    }
}

/// Where the signal frame goes below the user stack pointer `rsp`: past the
/// red zone, 16-byte aligned.
pub open spec fn spec_signal_frame_addr(rsp: usize) -> usize {
    let below = if rsp >= RED_ZONE_SIZE + SIGNAL_FRAME_SIZE { (rsp - (RED_ZONE_SIZE + SIGNAL_FRAME_SIZE)) as usize } else { 0usize };
    below & !0xFusize
}

/// The signal frame sits 16-byte aligned below the red zone and the frame
/// itself: its top is at most the stack pointer less 280 bytes and at most
/// 15 bytes lower; a stack pointer too low for that gives address zero.
pub proof fn lemma_signal_frame_placement(rsp: usize)
    ensures
        spec_signal_frame_addr(rsp) % 16 == 0,
        rsp >= 280 ==> spec_signal_frame_addr(rsp) + 280 <= rsp && rsp < spec_signal_frame_addr(rsp) + 296,
        rsp < 280 ==> spec_signal_frame_addr(rsp) == 0,
{
    let below: usize = if rsp >= 280 { (rsp - 280) as usize } else { 0usize };
    assert(below & !0xFusize <= below && below - (below & !0xFusize) < 16 && (below & !0xFusize) % 16 == 0
        && 0usize & !0xFusize == 0) by (bit_vector);
}

/// The mask while a handler runs keeps every signal blocked at delivery,
/// adds the handler's own mask, blocks the signal itself unless
/// `SA_NODEFER` (0x40000000) is set, and blocks nothing else.
pub proof fn lemma_handler_mask(sig: i32, action: SigAction, blocked: SigSet)
    requires
        1 <= sig <= 31,
    ensures
        spec_handler_mask(sig, action, blocked) & blocked == blocked,
        spec_handler_mask(sig, action, blocked) & action.sa_mask == action.sa_mask,
        action.sa_flags & 0x4000_0000 == 0 ==> spec_handler_mask(sig, action, blocked) & sig_bit(sig) != 0,
        action.sa_flags & 0x4000_0000 != 0 ==> spec_handler_mask(sig, action, blocked) == blocked | action.sa_mask,
        spec_handler_mask(sig, action, blocked) & !(blocked | action.sa_mask | sig_bit(sig)) == 0,
{
    let m = spec_handler_mask(sig, action, blocked);
    let b = blocked;
    let a = action.sa_mask;
    let x = (sig - 1) as u64;
    let bit = sig_bit(sig);
    assert(bit == 1u64 << x);
    assert(x < 64 ==> ((b | a | (1u64 << x)) & b == b && (b | a | (1u64 << x)) & a == a
        && (b | a | (1u64 << x)) & (1u64 << x) != 0
        && (b | a | (1u64 << x)) & !(b | a | (1u64 << x)) == 0)) by (bit_vector);
    assert((b | a) & b == b && (b | a) & a == a && (b | a) & !(b | a | bit) == 0) by (bit_vector);
}

/// The signal frame for delivering `sig` with disposition `action` to a
/// process interrupted in a system call with registers `r`, and its address.
pub fn build_signal_frame(sig: i32, action: &SigAction, blocked: SigSet, r: &SyscallRegisters) -> (res: (usize, SignalFrame))
    requires
        valid_sig(sig),
    ensures
        res.0 == spec_signal_frame_addr(r.rsp),
        res.1 == (SignalFrame {
            restorer: action.sa_restorer as u64, signum: sig as u64, old_mask: blocked,
            r15: r.r15 as u64, r14: r.r14 as u64, r13: r.r13 as u64, r12: r.r12 as u64,
            rbp: r.rbp as u64, rbx: r.rbx as u64, r9: r.r9 as u64, r8: r.r8 as u64,
            r10: r.r10 as u64, rdx: r.rdx as u64, rsi: r.rsi as u64, rdi: r.rdi as u64,
            rax: r.rax as u64, rcx: r.rcx as u64, r11: r.r11 as u64, rsp: r.rsp as u64,
        }),
{
    let below = r.rsp.saturating_sub(RED_ZONE_SIZE + SIGNAL_FRAME_SIZE);
    let new_rsp = below & !0xF;
    let frame = SignalFrame {
        restorer: action.sa_restorer as u64, signum: sig as u64, old_mask: blocked,
        r15: r.r15 as u64, r14: r.r14 as u64, r13: r.r13 as u64, r12: r.r12 as u64,
        rbp: r.rbp as u64, rbx: r.rbx as u64, r9: r.r9 as u64, r8: r.r8 as u64,
        r10: r.r10 as u64, rdx: r.rdx as u64, rsi: r.rsi as u64, rdi: r.rdi as u64,
        rax: r.rax as u64, rcx: r.rcx as u64, r11: r.r11 as u64, rsp: r.rsp as u64,
    };
    (new_rsp, frame)
}

/// The mask in force while the handler of `sig` runs: the mask at delivery,
/// the handler's own mask, and `sig` itself unless `SA_NODEFER` is set.
pub open spec fn spec_handler_mask(sig: i32, action: SigAction, blocked: SigSet) -> SigSet {
    if action.sa_flags & SA_NODEFER == 0 {
        blocked | action.sa_mask | sig_bit(sig)
    } else {
        blocked | action.sa_mask
    }
}

/// Installs the handler-time mask of `pid` and, for `SA_RESETHAND`, resets
/// the disposition of `sig` to the default.
pub fn update_signal_mask_and_disposition(sm: &mut SignalManager, pid: i32, sig: i32, action: &SigAction, blocked: SigSet)
    requires
        old(sm).wf(),
        valid_sig(sig),
    ensures
        final(sm).wf(),
        final(sm).pending() == old(sm).pending(),
        final(sm).masks() == old(sm).masks().insert(pid, spec_handler_mask(sig, *action, blocked) & !crate::services::ipc::UNBLOCKABLE),
        action.sa_flags & SA_RESETHAND == 0 ==> final(sm).actions() == old(sm).actions(),
        action.sa_flags & SA_RESETHAND != 0 && sig != crate::abi::SIGKILL && sig != SIGSTOP ==>
            forall|s: i32| #![trigger final(sm).action_of(pid, s)] final(sm).action_of(pid, s)
                == if s == sig { SigAction::spec_default() } else { old(sm).action_of(pid, s) },
{
    let mut new_mask = blocked | action.sa_mask;
    if (action.sa_flags & SA_NODEFER) == 0 {
        new_mask = new_mask | sig_mask_bit(sig);
    }
    let _ = sm.set_procmask(pid, SIG_SETMASK, new_mask);
    if (action.sa_flags & SA_RESETHAND) != 0 {
        let _ = sm.set_action(pid, sig, SigAction::default_action());
    }
}

/// Enters the handler of a signal after its frame was written at `new_rsp`:
/// the handler runs on that stack with `rdi` = signal, `rsi` = 0 and `rdx`
/// pointing at the frame, and the handler-time mask is installed.
pub fn enter_signal_handler(
    sm: &mut SignalManager,
    pid: i32,
    r: &mut SyscallRegisters,
    sig: i32,
    action: &SigAction,
    blocked: SigSet,
    new_rsp: usize,
)
    requires
        old(sm).wf(),
        valid_sig(sig),
    ensures
        final(sm).wf(),
        final(sm).pending() == old(sm).pending(),
        final(sm).masks() == old(sm).masks().insert(pid, spec_handler_mask(sig, *action, blocked) & !crate::services::ipc::UNBLOCKABLE),
        *final(r) == (SyscallRegisters { rsp: new_rsp, rcx: action.sa_handler, rdi: sig as usize, rsi: 0, rdx: new_rsp, ..*old(r) }),
{
    r.rsp = new_rsp;
    r.rcx = action.sa_handler;
    r.rdi = sig as usize;
    r.rsi = 0;
    r.rdx = new_rsp;
    update_signal_mask_and_disposition(sm, pid, sig, action, blocked);
}

/// Returns from a signal handler: restores the saved mask and user
/// registers from `frame`, keeping only user-settable RFLAGS bits; the
/// result is the restored `rax`.
pub fn sys_rt_sigreturn(sm: &mut SignalManager, pid: i32, r: &mut SyscallRegisters, frame: &SignalFrame) -> (ret: isize)
    requires
        old(sm).wf(),
    ensures
        final(sm).wf(),
        final(sm).pending() == old(sm).pending(),
        final(sm).actions() == old(sm).actions(),
        final(sm).masks() == old(sm).masks().insert(pid, frame.old_mask & !crate::services::ipc::UNBLOCKABLE),
        *final(r) == (SyscallRegisters {
            r15: frame.r15 as usize, r14: frame.r14 as usize, r13: frame.r13 as usize, r12: frame.r12 as usize,
            rbp: frame.rbp as usize, rbx: frame.rbx as usize, r9: frame.r9 as usize, r8: frame.r8 as usize,
            r10: frame.r10 as usize, rdx: frame.rdx as usize, rsi: frame.rsi as usize, rdi: frame.rdi as usize,
            rax: frame.rax as usize, rcx: frame.rcx as usize,
            r11: ((frame.r11 as usize) & USER_RFLAGS_MASK) | USER_RFLAGS_RESERVED,
            rsp: frame.rsp as usize,
        }),
        ret == frame.rax as usize as isize,
{
    let _ = sm.set_procmask(pid, SIG_SETMASK, frame.old_mask);
    r.r15 = frame.r15 as usize;
    r.r14 = frame.r14 as usize;
    r.r13 = frame.r13 as usize;
    r.r12 = frame.r12 as usize;
    r.rbp = frame.rbp as usize;
    r.rbx = frame.rbx as usize;
    r.r9 = frame.r9 as usize;
    r.r8 = frame.r8 as usize;
    r.r10 = frame.r10 as usize;
    r.rdx = frame.rdx as usize;
    r.rsi = frame.rsi as usize;
    r.rdi = frame.rdi as usize;
    r.rax = frame.rax as usize;
    r.rcx = frame.rcx as usize;
    r.r11 = ((frame.r11 as usize) & USER_RFLAGS_MASK) | USER_RFLAGS_RESERVED;
    r.rsp = frame.rsp as usize;
    r.rax as isize
}

/// Where `rt_sigreturn` finds the signal frame: just below the user stack
/// pointer left by the handler's return.
pub fn sigreturn_frame_addr(rsp: usize) -> (r: usize)
    ensures
        r == if rsp >= 8 { (rsp - 8) as usize } else { 0usize },
{
    rsp.saturating_sub(8)
}

/// The signal frame for delivering `sig` to a task interrupted by the timer
/// in user mode, and its address.
pub fn build_signal_frame_irq(sig: i32, action: &SigAction, blocked: SigSet, f: &TrapFrame) -> (res: (u64, SignalFrame))
    requires
        valid_sig(sig),
    ensures
        res.0 == ((if f.rsp >= 280 { (f.rsp - 280) as u64 } else { 0u64 }) & !0xFu64),
        res.1 == (SignalFrame {
            restorer: action.sa_restorer as u64, signum: sig as u64, old_mask: blocked,
            r15: f.r15, r14: f.r14, r13: f.r13, r12: f.r12, rbp: f.rbp, rbx: f.rbx,
            r9: f.r9, r8: f.r8, r10: f.r10, rdx: f.rdx, rsi: f.rsi, rdi: f.rdi, rax: f.rax,
            rcx: f.rip, r11: f.rflags, rsp: f.rsp,
        }),
{
    let below = f.rsp.saturating_sub(280u64);
    let new_rsp = below & !0xFu64;
    let frame = SignalFrame {
        restorer: action.sa_restorer as u64, signum: sig as u64, old_mask: blocked,
        r15: f.r15, r14: f.r14, r13: f.r13, r12: f.r12, rbp: f.rbp, rbx: f.rbx,
        r9: f.r9, r8: f.r8, r10: f.r10, rdx: f.rdx, rsi: f.rsi, rdi: f.rdi, rax: f.rax,
        rcx: f.rip, r11: f.rflags, rsp: f.rsp,
    };
    (new_rsp, frame)
}

/// Redirects an interrupted user task to the handler of `sig` after its
/// frame was written at `new_rsp`, and installs the handler-time mask.
pub fn enter_signal_handler_irq(
    sm: &mut SignalManager,
    pid: i32,
    f: &mut TrapFrame,
    sig: i32,
    action: &SigAction,
    blocked: SigSet,
    new_rsp: u64,
)
    requires
        old(sm).wf(),
        valid_sig(sig),
    ensures
        final(sm).wf(),
        final(sm).pending() == old(sm).pending(),
        final(sm).masks() == old(sm).masks().insert(pid, spec_handler_mask(sig, *action, blocked) & !crate::services::ipc::UNBLOCKABLE),
        *final(f) == (TrapFrame { rsp: new_rsp, rip: action.sa_handler as u64, rdi: sig as u64, rsi: 0, rdx: new_rsp, ..*old(f) }),
{
    f.rsp = new_rsp;
    f.rip = action.sa_handler as u64;
    f.rdi = sig as u64;
    f.rsi = 0;
    f.rdx = new_rsp;
    update_signal_mask_and_disposition(sm, pid, sig, action, blocked);
}

/// Signal check on the return from a timer interrupt: nothing happens
/// unless the frame was taken in user mode; then the signal to act on is
/// picked as `select_signal` picks it.
pub fn check_signals_irq(sm: &mut SignalManager, f: &TrapFrame, pid: i32) -> (r: SignalDecision)
    requires
        old(sm).wf(),
    ensures
        final(sm).wf(),
        !f.is_user_mode_spec() ==> r == SignalDecision::Nothing && *final(sm) == *old(sm),
        f.is_user_mode_spec() ==> {
            &&& r == decision_for(*old(sm), pid)
            &&& final(sm).masks() == old(sm).masks()
            &&& final(sm).actions() == old(sm).actions()
            &&& unblocked_of(*old(sm), pid) == 0 ==> final(sm).pending() == old(sm).pending()
            &&& unblocked_of(*old(sm), pid) != 0 ==> final(sm).pending() == old(sm).pending().insert(
                pid,
                lookup_or_zero(old(sm).pending(), pid) & !cleared_by_selection(*old(sm), pid),
            )
        },
{
    if !f.is_user_mode() {
        return SignalDecision::Nothing;
    }
    select_signal(sm, pid)
}

impl TrapFrame {
    /// The frame was captured in ring 3.
    pub open spec fn is_user_mode_spec(&self) -> bool {
        self.cs & 3 == 3 || self.cs as u16 == crate::arch::gdt::USER_CODE_SEL
    }
}

/// The status word `wait4` reports for a child that exited with
/// `exit_code`, or was killed by `killed_by_sig`.
pub fn encode_wait_status(exit_code: i32, killed_by_sig: Option<i32>) -> (r: i32)
    ensures
        r == match killed_by_sig {
            Some(sig) => sig & 0x7f,
            None => ((exit_code & 0xff) * 256) as i32,
        },
{
    match killed_by_sig {
        Some(sig) => sig & 0x7f,
        None => {
            let low = exit_code & 0xff;
            assert(0 <= low <= 0xff) by (bit_vector)
                requires low == exit_code & 0xff;
            assert(low << 8 == low * 256) by (bit_vector)
                requires 0 <= low <= 0xff;
            low << 8
        },
    }
}

} // verus!
