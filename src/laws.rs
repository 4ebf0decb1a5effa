use vstd::prelude::*;
use crate::ledger::{
    AccountView, LedgerError, account, balance_of, transfer_error, transfer_outcome,
};
use crate::store::lookup;

verus! {

/// A transfer keeps the sum of the two balances, whether it succeeds or fails; a transfer
/// from an address to itself keeps its balance.
pub proof fn transfer_conserves(
    m: Map<Seq<char>, AccountView>,
    from: Seq<char>,
    to: Seq<char>,
    amount: u64,
)
    ensures
        from != to ==> balance_of(transfer_outcome(m, from, to, amount), from) + balance_of(
            transfer_outcome(m, from, to, amount),
            to,
        ) == balance_of(m, from) + balance_of(m, to),
        from == to ==> balance_of(transfer_outcome(m, from, to, amount), from) == balance_of(m, from),
{
}

/// One transfer between `a` and `b`: from `a` to `b` when the flag is set, else back.
pub open spec fn step_between(
    m: Map<Seq<char>, AccountView>,
    a: Seq<char>,
    b: Seq<char>,
    step: (bool, u64),
) -> Map<Seq<char>, AccountView> {
    if step.0 {
        transfer_outcome(m, a, b, step.1)
    } else {
        transfer_outcome(m, b, a, step.1)
    }
}

/// The ledger after a sequence of transfers between `a` and `b`, each one tried in turn.
pub open spec fn run_between(
    m: Map<Seq<char>, AccountView>,
    a: Seq<char>,
    b: Seq<char>,
    steps: Seq<(bool, u64)>,
) -> Map<Seq<char>, AccountView>
    decreases steps.len(),
{
    if steps.len() == 0 {
        m
    } else {
        run_between(step_between(m, a, b, steps[0]), a, b, steps.subrange(1, steps.len() as int))
    }
}

/// Any sequence of transfers between two addresses, successful or not, keeps the sum of
/// their balances.
pub proof fn transfers_conserve(
    m: Map<Seq<char>, AccountView>,
    a: Seq<char>,
    b: Seq<char>,
    steps: Seq<(bool, u64)>,
)
    requires
        a != b,
    ensures
        balance_of(run_between(m, a, b, steps), a) + balance_of(run_between(m, a, b, steps), b)
            == balance_of(m, a) + balance_of(m, b),
    decreases steps.len(),
{
    if steps.len() > 0 {
        let next = step_between(m, a, b, steps[0]);
        transfer_conserves(m, a, b, steps[0].1);
        transfer_conserves(m, b, a, steps[0].1);
        transfers_conserve(next, a, b, steps.subrange(1, steps.len() as int));
    }
}

/// A transfer that fails on the credit leaves the ledger, and so the source balance,
/// exactly as it was.
pub proof fn failed_credit_restores(
    m: Map<Seq<char>, AccountView>,
    from: Seq<char>,
    to: Seq<char>,
    amount: u64,
)
    requires
        transfer_error(m, from, to, amount) == Some(LedgerError::Overflow),
    ensures
        transfer_outcome(m, from, to, amount) == m,
        balance_of(transfer_outcome(m, from, to, amount), from) == balance_of(m, from),
{
}

/// A transfer of more than the source holds fails with `InsufficientFunds` and changes
/// no balance.
pub proof fn insufficient_funds_keeps(
    m: Map<Seq<char>, AccountView>,
    from: Seq<char>,
    to: Seq<char>,
    amount: u64,
)
    requires
        balance_of(m, from) < amount,
    ensures
        transfer_error(m, from, to, amount) == Some(LedgerError::InsufficientFunds),
        transfer_outcome(m, from, to, amount) == m,
        balance_of(transfer_outcome(m, from, to, amount), from) == balance_of(m, from),
        balance_of(transfer_outcome(m, from, to, amount), to) == balance_of(m, to),
{
}

/// An address that was never written reads as balance zero and empty storage.
pub proof fn untouched_reads_default(m: Map<Seq<char>, AccountView>, a: Seq<char>, key: Seq<u8>)
    requires
        !m.contains_key(a),
    ensures
        balance_of(m, a) == 0,
        lookup(account(m, a).data, key) == Seq::<u8>::empty(),
        account(m, a).bytecode == Seq::<u8>::empty(),
{
}

/// A call-stack operation that succeeded: entering an address with coins, or leaving.
pub enum StackOp {
    Enter(Seq<char>, u64),
    Leave,
}

/// The stack after one operation: `init_call` pushes, `finish_call` pops all but the base frame.
pub open spec fn stack_step(s: Seq<(Seq<char>, u64)>, op: StackOp) -> Seq<(Seq<char>, u64)> {
    match op {
        StackOp::Enter(a, c) => s.push((a, c)),
        StackOp::Leave => if s.len() > 1 {
            s.drop_last()
        } else {
            s
        },
    }
}

/// The stack after a sequence of operations.
pub open spec fn stack_run(s: Seq<(Seq<char>, u64)>, ops: Seq<StackOp>) -> Seq<(Seq<char>, u64)>
    decreases ops.len(),
{
    if ops.len() == 0 {
        s
    } else {
        stack_run(stack_step(s, ops[0]), ops.subrange(1, ops.len() as int))
    }
}

/// Number of `Enter` operations.
pub open spec fn enters(ops: Seq<StackOp>) -> int
    decreases ops.len(),
{
    if ops.len() == 0 {
        0
    } else {
        (if ops[0] is Enter { 1int } else { 0int }) + enters(ops.subrange(1, ops.len() as int))
    }
}

/// Number of `Leave` operations.
pub open spec fn leaves(ops: Seq<StackOp>) -> int
    decreases ops.len(),
{
    if ops.len() == 0 {
        0
    } else {
        (if ops[0] is Leave { 1int } else { 0int }) + leaves(ops.subrange(1, ops.len() as int))
    }
}

/// Starting at `depth`, no `Leave` of `ops` finds only the base frame.
pub open spec fn above_base(depth: int, ops: Seq<StackOp>) -> bool
    decreases ops.len(),
{
    if ops.len() == 0 {
        true
    } else {
        let d = if ops[0] is Enter { depth + 1 } else { depth - 1 };
        d >= 1 && above_base(d, ops.subrange(1, ops.len() as int))
    }
}

/// When no `finish_call` meets the base frame alone, the depth after a sequence of
/// calls is the starting depth plus the entries minus the exits.
pub proof fn stack_depth_counts(s: Seq<(Seq<char>, u64)>, ops: Seq<StackOp>)
    requires
        s.len() >= 1,
        above_base(s.len() as int, ops),
    ensures
        stack_run(s, ops).len() == s.len() + enters(ops) - leaves(ops),
    decreases ops.len(),
{
    if ops.len() > 0 {
        stack_depth_counts(stack_step(s, ops[0]), ops.subrange(1, ops.len() as int));
    }
}

/// A `finish_call` with only the base frame left changes nothing.
pub proof fn leave_at_base_keeps(s: Seq<(Seq<char>, u64)>)
    requires
        s.len() == 1,
    ensures
        stack_step(s, StackOp::Leave) == s,
{
}

} // verus!
