use vstd::prelude::*;
use crate::ledger::{
    Ledger, LedgerError, AccountView, account, balance_of, transfer_error,
    transferred, transfer_outcome, with_balance, with_bytecode, with_data,
};
use crate::store::lookup;
use crate::trace::{Slot, TraceRecord, TraceEntry, trace_view, strings_view};

verus! {

/// Failures of an operation of the execution context.
#[derive(Debug, Clone, Copy, PartialEq, Eq, Structural)]
pub enum ExecError {
    /// `finish_call` with only the base frame left.
    CallStackUnderflow,
    /// A debit larger than the balance.
    InsufficientFunds,
    /// A credit past the largest balance.
    Overflow,
    /// A write to an address that is neither the current one nor owned.
    WriteAccessDenied,
    /// A fresh module address that is already in use.
    AddressCollision,
}

/// The context's error for a ledger error.
pub open spec fn exec_error(e: LedgerError) -> ExecError {
    match e {
        LedgerError::InsufficientFunds => ExecError::InsufficientFunds,
        LedgerError::Overflow => ExecError::Overflow,
    }
}

/// The result of a transfer of `amount` from `from` to `to` on ledger `m`.
pub open spec fn transfer_result(
    m: Map<Seq<char>, AccountView>,
    from: Seq<char>,
    to: Seq<char>,
    amount: u64,
) -> Result<(), ExecError> {
    match transfer_error(m, from, to, amount) {
        None => Ok(()),
        Some(e) => Err(exec_error(e)),
    }
}

fn map_ledger_error(e: LedgerError) -> (r: ExecError)
    ensures
        r == exec_error(e),
{
    match e {
        LedgerError::InsufficientFunds => ExecError::InsufficientFunds,
        LedgerError::Overflow => ExecError::Overflow,
    }
}

/// One frame of the call stack: the called address and the coins sent with the call.
pub struct CallItem {
    pub address: String,
    pub coins: u64,
}

/// A message to be delivered to another contract at a later slot.
pub struct AsyncMessage {
    pub sender_address: String,
    pub target_address: String,
    pub target_handler: String,
    pub gas: u64,
    pub coins: u64,
    pub data: Vec<u8>,
}

/// An async message as mathematical values.
pub struct MessageView {
    pub sender_address: Seq<char>,
    pub target_address: Seq<char>,
    pub target_handler: Seq<char>,
    pub gas: u64,
    pub coins: u64,
    pub data: Seq<u8>,
}

impl View for AsyncMessage {
    type V = MessageView;

    open spec fn view(&self) -> MessageView {
        MessageView {
            sender_address: self.sender_address@,
            target_address: self.target_address@,
            target_handler: self.target_handler@,
            gas: self.gas,
            coins: self.coins,
            data: self.data@,
        }
    }
}

/// A message scheduled for a slot.
pub struct ScheduledMessage {
    pub slot: Slot,
    pub message: AsyncMessage,
}

/// An event emitted by a contract.
pub struct Event {
    pub slot: Slot,
    pub sender: String,
    pub data: String,
}

/// The state of one simulated execution: ledger, call stack, owned addresses,
/// emitted events, scheduled messages and the trace of every operation.
pub struct ExecutionContext {
    ledger: Ledger,
    call_stack: Vec<CallItem>,
    owned: Vec<String>,
    events: Vec<Event>,
    messages: Vec<ScheduledMessage>,
    trace: Vec<TraceRecord>,
    slot: Slot,
}

impl ExecutionContext {
    pub closed spec fn wf(&self) -> bool {
        self.ledger.wf() && self.call_stack@.len() >= 1
    }

    /// The accounts.
    pub closed spec fn ledger_view(&self) -> Map<Seq<char>, AccountView> {
        self.ledger@
    }

    /// The call stack, base frame first: each frame's address and coins.
    pub closed spec fn stack(&self) -> Seq<(Seq<char>, u64)> {
        self.call_stack@.map_values(|c: CallItem| (c.address@, c.coins))
    }

    /// The addresses created in this context, in creation order.
    pub closed spec fn owned_view(&self) -> Seq<Seq<char>> {
        strings_view(self.owned@)
    }

    /// The emitted events: slot, sender and data of each.
    pub closed spec fn events_view(&self) -> Seq<(Slot, Seq<char>, Seq<char>)> {
        self.events@.map_values(|e: Event| (e.slot, e.sender@, e.data@))
    }

    /// The scheduled messages with their slots.
    pub closed spec fn messages_view(&self) -> Seq<(Slot, MessageView)> {
        self.messages@.map_values(|m: ScheduledMessage| (m.slot, m.message@))
    }

    /// The trace of every successful operation, in order.
    pub closed spec fn trace(&self) -> Seq<TraceEntry> {
        trace_view(self.trace@)
    }

    /// The slot the context executes in.
    pub closed spec fn slot_view(&self) -> Slot {
        self.slot
    }

    /// The address of the current frame.
    pub open spec fn current(&self) -> Seq<char> {
        self.stack().last().0
    }

    /// Whether the current frame may write the storage of `a`.
    pub open spec fn can_write(&self, a: Seq<char>) -> bool {
        a == self.current() || self.owned_view().contains(a)
    }

    /// Everything but the trace is as in `other`.
    pub open spec fn same_state(&self, other: &ExecutionContext) -> bool {
        &&& self.ledger_view() == other.ledger_view()
        &&& self.stack() == other.stack()
        &&& self.owned_view() == other.owned_view()
        &&& self.events_view() == other.events_view()
        &&& self.messages_view() == other.messages_view()
        &&& self.slot_view() == other.slot_view()
    }

    /// Nothing but the ledger and the trace differ from `other`.
    pub open spec fn same_but_ledger(&self, other: &ExecutionContext) -> bool {
        &&& self.stack() == other.stack()
        &&& self.owned_view() == other.owned_view()
        &&& self.events_view() == other.events_view()
        &&& self.messages_view() == other.messages_view()
        &&& self.slot_view() == other.slot_view()
    }

    /// A context whose base frame is `base_address` holding `base_balance`, at `slot`.
    pub fn new(base_address: &str, base_balance: u64, slot: Slot) -> (r: ExecutionContext)
        ensures
            r.wf(),
            r.stack() == seq![(base_address@, 0u64)],
            balance_of(r.ledger_view(), base_address@) == base_balance,
            forall|a: Seq<char>| a != base_address@ ==> !r.ledger_view().contains_key(a),
            r.owned_view() == Seq::<Seq<char>>::empty(),
            r.events_view() == Seq::<(Slot, Seq<char>, Seq<char>)>::empty(),
            r.messages_view() == Seq::<(Slot, MessageView)>::empty(),
            r.trace() == Seq::<TraceEntry>::empty(),
            r.slot_view() == slot,
    {
        let mut ledger = Ledger::new();
        let credited = ledger.credit(base_address, base_balance);
        let mut call_stack: Vec<CallItem> = Vec::new();
        call_stack.push(CallItem { address: base_address.to_owned(), coins: 0 });
        let r = ExecutionContext {
            ledger,
            call_stack,
            owned: Vec::new(),
            events: Vec::new(),
            messages: Vec::new(),
            trace: Vec::new(),
            slot,
        };
        assert(r.stack() =~= seq![(base_address@, 0u64)]);
        assert(r.owned_view() =~= Seq::<Seq<char>>::empty());
        assert(r.events_view() =~= Seq::<(Slot, Seq<char>, Seq<char>)>::empty());
        assert(r.messages_view() =~= Seq::<(Slot, MessageView)>::empty());
        assert(r.trace() =~= Seq::<TraceEntry>::empty());
        r
    }

    /// Moves the context to another slot.
    pub fn set_slot(&mut self, slot: Slot)
        requires
            old(self).wf(),
        ensures
            final(self).wf(),
            final(self).slot_view() == slot,
            final(self).ledger_view() == old(self).ledger_view(),
            final(self).stack() == old(self).stack(),
            final(self).owned_view() == old(self).owned_view(),
            final(self).events_view() == old(self).events_view(),
            final(self).messages_view() == old(self).messages_view(),
            final(self).trace() == old(self).trace(),
    {
        self.slot = slot;
    }

    /// Host-side setup: adds `amount` to the balance of `address`, outside any call and
    /// without a trace record. Fails with `Overflow`, changing nothing, past the largest balance.
    pub fn fund(&mut self, address: &str, amount: u64) -> (r: Result<(), ExecError>)
        requires
            old(self).wf(),
        ensures
            final(self).wf(),
            final(self).same_but_ledger(&*old(self)),
            final(self).trace() == old(self).trace(),
            balance_of(old(self).ledger_view(), address@) + amount <= u64::MAX ==> r is Ok
                && balance_of(final(self).ledger_view(), address@) == balance_of(
                old(self).ledger_view(),
                address@,
            ) + amount && forall|a: Seq<char>|
                a != address@ ==> account(final(self).ledger_view(), a) == account(
                    old(self).ledger_view(),
                    a,
                ),
            balance_of(old(self).ledger_view(), address@) + amount > u64::MAX ==> r == Err::<
                (),
                ExecError,
            >(ExecError::Overflow) && final(self).ledger_view() == old(self).ledger_view(),
    {
        match self.ledger.credit(address, amount) {
            Ok(()) => Ok(()),
            Err(e) => Err(map_ledger_error(e)),
        }
    }

    /// The trace recorded so far.
    pub fn trace_records(&self) -> (r: &Vec<TraceRecord>)
        ensures
            trace_view(r@) == self.trace(),
    {
        &self.trace
    }

    /// Hands out the trace recorded so far and starts a new one.
    pub fn take_trace(&mut self) -> (r: Vec<TraceRecord>)
        requires
            old(self).wf(),
        ensures
            final(self).wf(),
            trace_view(r@) == old(self).trace(),
            final(self).same_state(&*old(self)),
            final(self).trace() == Seq::<TraceEntry>::empty(),
    {
        let mut r: Vec<TraceRecord> = Vec::new();
        std::mem::swap(&mut self.trace, &mut r);
        assert(self.trace() =~= Seq::<TraceEntry>::empty());
        r
    }

    fn current_address(&self) -> (r: String)
        requires
            self.wf(),
        ensures
            r@ == self.current(),
    {
        let n = self.call_stack.len();
        self.call_stack[n - 1].address.clone()
    }

    /// Appends a message to the trace.
    pub fn print(&mut self, message: &str)
        requires
            old(self).wf(),
        ensures
            final(self).wf(),
            final(self).same_state(&*old(self)),
            final(self).trace() == old(self).trace().push(TraceEntry::Print { message: message@ }),
    {
        self.trace.push(TraceRecord::Print { message: message.to_owned() });
        assert(self.trace() =~= old(self).trace().push(TraceEntry::Print { message: message@ }));
    }

    /// Balance of the current address.
    pub fn get_balance(&mut self) -> (r: u64)
        requires
            old(self).wf(),
        ensures
            final(self).wf(),
            r == balance_of(old(self).ledger_view(), old(self).current()),
            final(self).same_state(&*old(self)),
            final(self).trace() == old(self).trace().push(TraceEntry::GetBalance { return_value: r }),
    {
        let a = self.current_address();
        let b = self.ledger.balance(a.as_str());
        self.trace.push(TraceRecord::GetBalance { return_value: b });
        assert(self.trace() =~= old(self).trace().push(TraceEntry::GetBalance { return_value: b }));
        b
    }

    /// Balance of `address`; zero for an address never written.
    pub fn get_balance_for(&mut self, address: &str) -> (r: u64)
        requires
            old(self).wf(),
        ensures
            final(self).wf(),
            r == balance_of(old(self).ledger_view(), address@),
            final(self).same_state(&*old(self)),
            final(self).trace() == old(self).trace().push(
                TraceEntry::GetBalanceFor { address: address@, return_value: r },
            ),
    {
        let b = self.ledger.balance(address);
        self.trace.push(TraceRecord::GetBalanceFor { address: address.to_owned(), return_value: b });
        assert(self.trace() =~= old(self).trace().push(
            TraceEntry::GetBalanceFor { address: address@, return_value: b },
        ));
        b
    }

    /// Moves `raw_amount` from `from_address` to `to_address`. On failure nothing changes,
    /// the trace included.
    pub fn transfer_coins_for(&mut self, from_address: &str, to_address: &str, raw_amount: u64) -> (r:
        Result<(), ExecError>)
        requires
            old(self).wf(),
        ensures
            final(self).wf(),
            r == transfer_result(old(self).ledger_view(), from_address@, to_address@, raw_amount),
            final(self).ledger_view() == transfer_outcome(
                old(self).ledger_view(),
                from_address@,
                to_address@,
                raw_amount,
            ),
            final(self).same_but_ledger(&*old(self)),
            r is Ok ==> final(self).trace() == old(self).trace().push(
                TraceEntry::TransferCoinsFor {
                    from_address: from_address@,
                    to_address: to_address@,
                    raw_amount,
                },
            ),
            r is Err ==> final(self).trace() == old(self).trace(),
    {
        match self.ledger.transfer(from_address, to_address, raw_amount) {
            Ok(()) => {},
            Err(e) => {
                return Err(map_ledger_error(e));
            },
        }
        self.trace.push(
            TraceRecord::TransferCoinsFor {
                from_address: from_address.to_owned(),
                to_address: to_address.to_owned(),
                raw_amount,
            },
        );
        assert(self.trace() =~= old(self).trace().push(
            TraceEntry::TransferCoinsFor {
                from_address: from_address@,
                to_address: to_address@,
                raw_amount,
            },
        ));
        Ok(())
    }

    /// Moves `raw_amount` from the current address to `to_address`.
    pub fn transfer_coins(&mut self, to_address: &str, raw_amount: u64) -> (r: Result<(), ExecError>)
        requires
            old(self).wf(),
        ensures
            final(self).wf(),
            r == transfer_result(old(self).ledger_view(), old(self).current(), to_address@, raw_amount),
            final(self).ledger_view() == transfer_outcome(
                old(self).ledger_view(),
                old(self).current(),
                to_address@,
                raw_amount,
            ),
            final(self).same_but_ledger(&*old(self)),
            r is Ok ==> final(self).trace() == old(self).trace().push(
                TraceEntry::TransferCoins { to_address: to_address@, raw_amount },
            ),
            r is Err ==> final(self).trace() == old(self).trace(),
    {
        let from = self.current_address();
        match self.ledger.transfer(from.as_str(), to_address, raw_amount) {
            Ok(()) => {},
            Err(e) => {
                return Err(map_ledger_error(e));
            },
        }
        self.trace.push(TraceRecord::TransferCoins { to_address: to_address.to_owned(), raw_amount });
        assert(self.trace() =~= old(self).trace().push(
            TraceEntry::TransferCoins { to_address: to_address@, raw_amount },
        ));
        Ok(())
    }

    /// Enters `address` with `raw_coins` sent from the current address, and returns the
    /// callee's bytecode. When the coins cannot move, no frame is pushed.
    pub fn init_call(&mut self, address: &str, raw_coins: u64) -> (r: Result<Vec<u8>, ExecError>)
        requires
            old(self).wf(),
        ensures
            final(self).wf(),
            match r {
                Ok(code) => {
                    &&& transfer_result(old(self).ledger_view(), old(self).current(), address@, raw_coins) is Ok
                    &&& code@ == account(old(self).ledger_view(), address@).bytecode
                    &&& final(self).ledger_view() == transferred(
                        old(self).ledger_view(),
                        old(self).current(),
                        address@,
                        raw_coins,
                    )
                    &&& final(self).stack() == old(self).stack().push((address@, raw_coins))
                    &&& final(self).trace() == old(self).trace().push(
                        TraceEntry::InitCall { address: address@, coins: raw_coins, return_value: code@ },
                    )
                },
                Err(e) => {
                    &&& transfer_result(old(self).ledger_view(), old(self).current(), address@, raw_coins)
                        == Err::<(), ExecError>(e)
                    &&& final(self).same_state(&*old(self))
                    &&& final(self).trace() == old(self).trace()
                },
            },
            final(self).owned_view() == old(self).owned_view(),
            final(self).events_view() == old(self).events_view(),
            final(self).messages_view() == old(self).messages_view(),
            final(self).slot_view() == old(self).slot_view(),
    {
        let code = self.ledger.bytecode(address);
        let from = self.current_address();
        match self.ledger.transfer(from.as_str(), address, raw_coins) {
            Ok(()) => {},
            Err(e) => {
                return Err(map_ledger_error(e));
            },
        }
        self.call_stack.push(CallItem { address: address.to_owned(), coins: raw_coins });
        let traced = vstd::slice::slice_to_vec(code.as_slice());
        self.trace.push(
            TraceRecord::InitCall { address: address.to_owned(), coins: raw_coins, return_value: traced },
        );
        assert(self.stack() =~= old(self).stack().push((address@, raw_coins)));
        assert(self.trace() =~= old(self).trace().push(
            TraceEntry::InitCall { address: address@, coins: raw_coins, return_value: code@ },
        ));
        Ok(code)
    }

    /// Leaves the current call. The base frame is never popped.
    pub fn finish_call(&mut self) -> (r: Result<(), ExecError>)
        requires
            old(self).wf(),
        ensures
            final(self).wf(),
            old(self).stack().len() > 1 ==> r is Ok && final(self).stack() == old(self).stack().drop_last()
                && final(self).trace() == old(self).trace().push(TraceEntry::FinishCall),
            old(self).stack().len() <= 1 ==> r == Err::<(), ExecError>(ExecError::CallStackUnderflow)
                && final(self).stack() == old(self).stack() && final(self).trace() == old(self).trace(),
            final(self).ledger_view() == old(self).ledger_view(),
            final(self).owned_view() == old(self).owned_view(),
            final(self).events_view() == old(self).events_view(),
            final(self).messages_view() == old(self).messages_view(),
            final(self).slot_view() == old(self).slot_view(),
    {
        if self.call_stack.len() <= 1 {
            return Err(ExecError::CallStackUnderflow);
        }
        let _ = self.call_stack.pop();
        self.trace.push(TraceRecord::FinishCall);
        assert(self.stack() =~= old(self).stack().drop_last());
        assert(self.trace() =~= old(self).trace().push(TraceEntry::FinishCall));
        Ok(())
    }
    fn owns(&self, address: &str) -> (r: bool)
        ensures
            r == self.owned_view().contains(address@),
    {
        let a = address.to_owned();
        let mut i: usize = 0;
        while i < self.owned.len()
            invariant
                a@ == address@,
                0 <= i <= self.owned@.len(),
                forall|j: int| 0 <= j < i ==> self.owned@[j]@ != address@,
            decreases self.owned@.len() - i,
        {
            if self.owned[i] == a {
                assert(self.owned_view()[i as int] == address@);
                return true;
            }
            i = i + 1;
        }
        proof {
            if self.owned_view().contains(address@) {
                let j = choose|j: int| 0 <= j < self.owned_view().len() && self.owned_view()[j] == address@;
                assert(self.owned@[j]@ == address@);
            }
        }
        false
    }

    /// Installs `module` under the fresh address `address` and adds it to the owned
    /// addresses. Fails when `address` already has a record or is owned.
    pub fn create_module(&mut self, module: &[u8], address: &str) -> (r: Result<String, ExecError>)
        requires
            old(self).wf(),
        ensures
            final(self).wf(),
            (old(self).ledger_view().contains_key(address@) || old(self).owned_view().contains(address@))
                ==> r == Err::<String, ExecError>(ExecError::AddressCollision) && final(self).same_state(
                &*old(self),
            ) && final(self).trace() == old(self).trace(),
            !(old(self).ledger_view().contains_key(address@) || old(self).owned_view().contains(address@))
                ==> {
                &&& r is Ok
                &&& r->Ok_0@ == address@
                &&& final(self).ledger_view() == with_bytecode(old(self).ledger_view(), address@, module@)
                &&& final(self).owned_view() == old(self).owned_view().push(address@)
                &&& final(self).stack() == old(self).stack()
                &&& final(self).events_view() == old(self).events_view()
                &&& final(self).messages_view() == old(self).messages_view()
                &&& final(self).slot_view() == old(self).slot_view()
                &&& final(self).trace() == old(self).trace().push(
                    TraceEntry::CreateModule { module: module@, return_value: address@ },
                )
            },
    {
        if self.ledger.contains(address) || self.owns(address) {
            return Err(ExecError::AddressCollision);
        }
        self.ledger.set_bytecode(address, module);
        self.owned.push(address.to_owned());
        self.trace.push(
            TraceRecord::CreateModule {
                module: vstd::slice::slice_to_vec(module),
                return_value: address.to_owned(),
            },
        );
        assert(self.owned_view() =~= old(self).owned_view().push(address@));
        assert(self.trace() =~= old(self).trace().push(
            TraceEntry::CreateModule { module: module@, return_value: address@ },
        ));
        Ok(address.to_owned())
    }

    /// The bytes under `key` for `address`; empty when unset or never written.
    pub fn raw_get_data_for(&mut self, address: &str, key: &[u8]) -> (r: Vec<u8>)
        requires
            old(self).wf(),
        ensures
            final(self).wf(),
            r@ == lookup(account(old(self).ledger_view(), address@).data, key@),
            final(self).same_state(&*old(self)),
            final(self).trace() == old(self).trace().push(
                TraceEntry::RawGetDataFor { address: address@, key: key@, return_value: r@ },
            ),
    {
        let data = self.ledger.get_data(address, key);
        self.trace.push(
            TraceRecord::RawGetDataFor {
                address: address.to_owned(),
                key: vstd::slice::slice_to_vec(key),
                return_value: vstd::slice::slice_to_vec(data.as_slice()),
            },
        );
        assert(self.trace() =~= old(self).trace().push(
            TraceEntry::RawGetDataFor { address: address@, key: key@, return_value: data@ },
        ));
        data
    }

    /// Stores `value` under `key` for `address`, when the current frame may write it.
    pub fn raw_set_data_for(&mut self, address: &str, key: &[u8], value: &[u8]) -> (r: Result<
        (),
        ExecError,
    >)
        requires
            old(self).wf(),
        ensures
            final(self).wf(),
            old(self).can_write(address@) ==> r is Ok && final(self).ledger_view() == with_data(
                old(self).ledger_view(),
                address@,
                key@,
                value@,
            ) && final(self).trace() == old(self).trace().push(
                TraceEntry::RawSetDataFor { address: address@, key: key@, value: value@ },
            ),
            !old(self).can_write(address@) ==> r == Err::<(), ExecError>(ExecError::WriteAccessDenied)
                && final(self).ledger_view() == old(self).ledger_view() && final(self).trace()
                == old(self).trace(),
            final(self).same_but_ledger(&*old(self)),
    {
        let current = self.current_address();
        if !(current == address.to_owned() || self.owns(address)) {
            return Err(ExecError::WriteAccessDenied);
        }
        self.ledger.set_data(address, key, value);
        self.trace.push(
            TraceRecord::RawSetDataFor {
                address: address.to_owned(),
                key: vstd::slice::slice_to_vec(key),
                value: vstd::slice::slice_to_vec(value),
            },
        );
        assert(self.trace() =~= old(self).trace().push(
            TraceEntry::RawSetDataFor { address: address@, key: key@, value: value@ },
        ));
        Ok(())
    }

    /// The bytes under `key` for the current address.
    pub fn raw_get_data(&mut self, key: &[u8]) -> (r: Vec<u8>)
        requires
            old(self).wf(),
        ensures
            final(self).wf(),
            r@ == lookup(account(old(self).ledger_view(), old(self).current()).data, key@),
            final(self).same_state(&*old(self)),
            final(self).trace() == old(self).trace().push(
                TraceEntry::RawGetData { key: key@, return_value: r@ },
            ),
    {
        let a = self.current_address();
        let data = self.ledger.get_data(a.as_str(), key);
        self.trace.push(
            TraceRecord::RawGetData {
                key: vstd::slice::slice_to_vec(key),
                return_value: vstd::slice::slice_to_vec(data.as_slice()),
            },
        );
        assert(self.trace() =~= old(self).trace().push(
            TraceEntry::RawGetData { key: key@, return_value: data@ },
        ));
        data
    }

    /// Stores `value` under `key` for the current address.
    pub fn raw_set_data(&mut self, key: &[u8], value: &[u8])
        requires
            old(self).wf(),
        ensures
            final(self).wf(),
            final(self).ledger_view() == with_data(old(self).ledger_view(), old(self).current(), key@, value@),
            final(self).same_but_ledger(&*old(self)),
            final(self).trace() == old(self).trace().push(
                TraceEntry::RawSetData { key: key@, value: value@ },
            ),
    {
        let a = self.current_address();
        self.ledger.set_data(a.as_str(), key, value);
        self.trace.push(
            TraceRecord::RawSetData {
                key: vstd::slice::slice_to_vec(key),
                value: vstd::slice::slice_to_vec(value),
            },
        );
        assert(self.trace() =~= old(self).trace().push(
            TraceEntry::RawSetData { key: key@, value: value@ },
        ));
    }

    /// Whether the current address stores a value under `key`.
    pub fn has_data(&mut self, key: &[u8]) -> (r: bool)
        requires
            old(self).wf(),
        ensures
            final(self).wf(),
            r == account(old(self).ledger_view(), old(self).current()).data.contains_key(key@),
            final(self).same_state(&*old(self)),
            final(self).trace() == old(self).trace().push(
                TraceEntry::HasData { key: key@, return_value: r },
            ),
    {
        let a = self.current_address();
        let b = self.ledger.has_data(a.as_str(), key);
        self.trace.push(TraceRecord::HasData { key: vstd::slice::slice_to_vec(key), return_value: b });
        assert(self.trace() =~= old(self).trace().push(TraceEntry::HasData { key: key@, return_value: b }));
        b
    }

    /// Replaces the bytecode of `address`.
    pub fn raw_set_bytecode_for(&mut self, address: &str, bytecode: &[u8])
        requires
            old(self).wf(),
        ensures
            final(self).wf(),
            final(self).ledger_view() == with_bytecode(old(self).ledger_view(), address@, bytecode@),
            final(self).same_but_ledger(&*old(self)),
            final(self).trace() == old(self).trace().push(
                TraceEntry::RawSetBytecodeFor { address: address@, bytecode: bytecode@ },
            ),
    {
        self.ledger.set_bytecode(address, bytecode);
        self.trace.push(
            TraceRecord::RawSetBytecodeFor {
                address: address.to_owned(),
                bytecode: vstd::slice::slice_to_vec(bytecode),
            },
        );
        assert(self.trace() =~= old(self).trace().push(
            TraceEntry::RawSetBytecodeFor { address: address@, bytecode: bytecode@ },
        ));
    }

    /// Replaces the bytecode of the current address.
    pub fn raw_set_bytecode(&mut self, bytecode: &[u8])
        requires
            old(self).wf(),
        ensures
            final(self).wf(),
            final(self).ledger_view() == with_bytecode(old(self).ledger_view(), old(self).current(), bytecode@),
            final(self).same_but_ledger(&*old(self)),
            final(self).trace() == old(self).trace().push(TraceEntry::RawSetBytecode { bytecode: bytecode@ }),
    {
        let a = self.current_address();
        self.ledger.set_bytecode(a.as_str(), bytecode);
        self.trace.push(TraceRecord::RawSetBytecode { bytecode: vstd::slice::slice_to_vec(bytecode) });
        assert(self.trace() =~= old(self).trace().push(TraceEntry::RawSetBytecode { bytecode: bytecode@ }));
    }
    /// The addresses created in this context, in creation order.
    pub fn get_owned_addresses(&mut self) -> (r: Vec<String>)
        requires
            old(self).wf(),
        ensures
            final(self).wf(),
            strings_view(r@) == old(self).owned_view(),
            final(self).same_state(&*old(self)),
            final(self).trace() == old(self).trace().push(
                TraceEntry::GetOwnedAddresses { return_value: strings_view(r@) },
            ),
    {
        let r = copy_strings(&self.owned);
        let traced = copy_strings(&r);
        self.trace.push(TraceRecord::GetOwnedAddresses { return_value: traced });
        assert(self.trace() =~= old(self).trace().push(
            TraceEntry::GetOwnedAddresses { return_value: strings_view(r@) },
        ));
        r
    }

    /// The addresses of the call stack, base frame first.
    pub fn get_call_stack(&mut self) -> (r: Vec<String>)
        requires
            old(self).wf(),
        ensures
            final(self).wf(),
            strings_view(r@) == old(self).stack().map_values(|f: (Seq<char>, u64)| f.0),
            final(self).same_state(&*old(self)),
            final(self).trace() == old(self).trace().push(
                TraceEntry::GetCallStack { return_value: strings_view(r@) },
            ),
    {
        let mut r: Vec<String> = Vec::new();
        let mut i: usize = 0;
        while i < self.call_stack.len()
            invariant
                0 <= i <= self.call_stack@.len(),
                r@.len() == i,
                forall|j: int| 0 <= j < i ==> #[trigger] r@[j]@ == self.call_stack@[j].address@,
            decreases self.call_stack@.len() - i,
        {
            r.push(self.call_stack[i].address.clone());
            i = i + 1;
        }
        assert(strings_view(r@) =~= self.stack().map_values(|f: (Seq<char>, u64)| f.0));
        let traced = copy_strings(&r);
        self.trace.push(TraceRecord::GetCallStack { return_value: traced });
        assert(self.trace() =~= old(self).trace().push(
            TraceEntry::GetCallStack { return_value: strings_view(r@) },
        ));
        r
    }

    /// Emits an event from the current address at the context's slot.
    pub fn generate_event(&mut self, data: String)
        requires
            old(self).wf(),
        ensures
            final(self).wf(),
            final(self).events_view() == old(self).events_view().push(
                (old(self).slot_view(), old(self).current(), data@),
            ),
            final(self).ledger_view() == old(self).ledger_view(),
            final(self).stack() == old(self).stack(),
            final(self).owned_view() == old(self).owned_view(),
            final(self).messages_view() == old(self).messages_view(),
            final(self).slot_view() == old(self).slot_view(),
            final(self).trace() == old(self).trace().push(TraceEntry::GenerateEvent { data: data@ }),
    {
        let sender = self.current_address();
        let traced = data.clone();
        self.events.push(Event { slot: self.slot, sender, data });
        self.trace.push(TraceRecord::GenerateEvent { data: traced });
        assert(self.events_view() =~= old(self).events_view().push(
            (old(self).slot_view(), old(self).current(), data@),
        ));
        assert(self.trace() =~= old(self).trace().push(TraceEntry::GenerateEvent { data: data@ }));
    }

    /// The coins sent with the current call.
    pub fn get_call_coins(&mut self) -> (r: u64)
        requires
            old(self).wf(),
        ensures
            final(self).wf(),
            r == old(self).stack().last().1,
            final(self).same_state(&*old(self)),
            final(self).trace() == old(self).trace().push(TraceEntry::GetCallCoins { return_value: r }),
    {
        let n = self.call_stack.len();
        let coins = self.call_stack[n - 1].coins;
        self.trace.push(TraceRecord::GetCallCoins { return_value: coins });
        assert(self.trace() =~= old(self).trace().push(TraceEntry::GetCallCoins { return_value: coins }));
        coins
    }

    /// Records a hash operation on `key` whose digest was computed by the host,
    /// and hands the digest back.
    pub fn hash(&mut self, key: &[u8], digest: [u8; 32], encoded: &str) -> (r: [u8; 32])
        requires
            old(self).wf(),
        ensures
            final(self).wf(),
            r == digest,
            final(self).same_state(&*old(self)),
            final(self).trace() == old(self).trace().push(
                TraceEntry::Hash { key: key@, return_value: encoded@ },
            ),
    {
        self.trace.push(
            TraceRecord::Hash { key: vstd::slice::slice_to_vec(key), return_value: encoded.to_owned() },
        );
        assert(self.trace() =~= old(self).trace().push(
            TraceEntry::Hash { key: key@, return_value: encoded@ },
        ));
        digest
    }

    /// A random number from the thread's generator.
    pub fn unsafe_random(&mut self) -> (r: i64)
        requires
            old(self).wf(),
        ensures
            final(self).wf(),
            final(self).same_state(&*old(self)),
            final(self).trace() == old(self).trace().push(TraceEntry::UnsafeRandom { return_value: r }),
    {
        let n: i64 = rand::random::<i64>();
        self.trace.push(TraceRecord::UnsafeRandom { return_value: n });
        assert(self.trace() =~= old(self).trace().push(TraceEntry::UnsafeRandom { return_value: n }));
        n
    }

    /// The period of the context's slot.
    pub fn get_current_period(&mut self) -> (r: u64)
        requires
            old(self).wf(),
        ensures
            final(self).wf(),
            r == old(self).slot_view().period,
            final(self).same_state(&*old(self)),
            final(self).trace() == old(self).trace().push(TraceEntry::GetCurrentPeriod { return_value: r }),
    {
        let p = self.slot.period;
        self.trace.push(TraceRecord::GetCurrentPeriod { return_value: p });
        assert(self.trace() =~= old(self).trace().push(TraceEntry::GetCurrentPeriod { return_value: p }));
        p
    }

    /// The thread of the context's slot.
    pub fn get_current_thread(&mut self) -> (r: u8)
        requires
            old(self).wf(),
        ensures
            final(self).wf(),
            r == old(self).slot_view().thread,
            final(self).same_state(&*old(self)),
            final(self).trace() == old(self).trace().push(TraceEntry::GetCurrentThread { return_value: r }),
    {
        let t = self.slot.thread;
        self.trace.push(TraceRecord::GetCurrentThread { return_value: t });
        assert(self.trace() =~= old(self).trace().push(TraceEntry::GetCurrentThread { return_value: t }));
        t
    }

    /// Schedules a message from the current address to `target_address` at
    /// `validity_start`. The end of the validity window is recorded, not checked.
    pub fn send_message(
        &mut self,
        target_address: &str,
        target_handler: &str,
        validity_start: Slot,
        validity_end: Slot,
        max_gas: u64,
        gas_price: u64,
        coins: u64,
        data: &[u8],
    )
        requires
            old(self).wf(),
        ensures
            final(self).wf(),
            final(self).messages_view() == old(self).messages_view().push(
                (
                    validity_start,
                    MessageView {
                        sender_address: old(self).current(),
                        target_address: target_address@,
                        target_handler: target_handler@,
                        gas: max_gas,
                        coins,
                        data: data@,
                    },
                ),
            ),
            final(self).ledger_view() == old(self).ledger_view(),
            final(self).stack() == old(self).stack(),
            final(self).owned_view() == old(self).owned_view(),
            final(self).events_view() == old(self).events_view(),
            final(self).slot_view() == old(self).slot_view(),
            final(self).trace() == old(self).trace().push(
                TraceEntry::SendMessage {
                    sender_address: old(self).current(),
                    target_address: target_address@,
                    target_handler: target_handler@,
                    validity_start,
                    validity_end,
                    max_gas,
                    gas_price,
                    coins,
                    data: data@,
                },
            ),
    {
        let sender = self.current_address();
        let message = AsyncMessage {
            sender_address: sender.clone(),
            target_address: target_address.to_owned(),
            target_handler: target_handler.to_owned(),
            gas: max_gas,
            coins,
            data: vstd::slice::slice_to_vec(data),
        };
        self.messages.push(ScheduledMessage { slot: validity_start, message });
        self.trace.push(
            TraceRecord::SendMessage {
                sender_address: sender,
                target_address: target_address.to_owned(),
                target_handler: target_handler.to_owned(),
                validity_start,
                validity_end,
                max_gas,
                gas_price,
                coins,
                data: vstd::slice::slice_to_vec(data),
            },
        );
        assert(self.messages_view() =~= old(self).messages_view().push(
            (
                validity_start,
                MessageView {
                    sender_address: old(self).current(),
                    target_address: target_address@,
                    target_handler: target_handler@,
                    gas: max_gas,
                    coins,
                    data: data@,
                },
            ),
        ));
        assert(self.trace() =~= old(self).trace().push(
            TraceEntry::SendMessage {
                sender_address: old(self).current(),
                target_address: target_address@,
                target_handler: target_handler@,
                validity_start,
                validity_end,
                max_gas,
                gas_price,
                coins,
                data: data@,
            },
        ));
    }

    /// Whether the current address is the caller's own: the frame beneath the current
    /// one, or the current one when it is the base frame, has the same address.
    pub fn caller_has_write_access(&mut self) -> (r: bool)
        requires
            old(self).wf(),
        ensures
            final(self).wf(),
            r == (caller_of(old(self).stack()) == old(self).current()),
            final(self).same_state(&*old(self)),
            final(self).trace() == old(self).trace().push(
                TraceEntry::CallerHasWriteAccess { return_value: r },
            ),
    {
        let n = self.call_stack.len();
        let caller: usize = if n >= 2 { n - 2 } else { n - 1 };
        let r = self.call_stack[caller].address == self.call_stack[n - 1].address;
        self.trace.push(TraceRecord::CallerHasWriteAccess { return_value: r });
        assert(self.trace() =~= old(self).trace().push(TraceEntry::CallerHasWriteAccess { return_value: r }));
        r
    }
}

/// The address of the frame that made the current call; the base frame's own
/// address when there is no such frame.
pub open spec fn caller_of(stack: Seq<(Seq<char>, u64)>) -> Seq<char> {
    if stack.len() >= 2 {
        stack[stack.len() - 2].0
    } else {
        stack.last().0
    }
}

fn copy_strings(v: &Vec<String>) -> (r: Vec<String>)
    ensures
        strings_view(r@) == strings_view(v@),
{
    let mut r: Vec<String> = Vec::new();
    let mut i: usize = 0;
    while i < v.len()
        invariant
            0 <= i <= v@.len(),
            r@.len() == i,
            forall|j: int| 0 <= j < i ==> #[trigger] r@[j]@ == v@[j]@,
        decreases v@.len() - i,
    {
        r.push(v[i].clone());
        i = i + 1;
    }
    assert(strings_view(r@) =~= strings_view(v@));
    r
}

/// Relies on rand::random, which draws from the thread-local generator; nothing is
/// promised of the value.
pub assume_specification<T>[ rand::random::<T> ]() -> (r: T)
    where
        rand::distributions::Standard: rand::distributions::Distribution<T>,
;

} // verus!
