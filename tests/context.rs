use massa_sc_tester::context::{ExecError, ExecutionContext};
use massa_sc_tester::trace::{Slot, TraceRecord};

fn slot() -> Slot {
    Slot { period: 3, thread: 1 }
}

fn context(balance: u64) -> ExecutionContext {
    ExecutionContext::new("source", balance, slot())
}

#[test]
fn end_to_end_module_call() {
    let mut ctx = context(1000);
    let module = ctx.create_module(b"code", "module1").unwrap();
    assert_eq!(module, "module1");
    ctx.transfer_coins("module1", 100).unwrap();
    let code = ctx.init_call("module1", 50).unwrap();
    assert_eq!(code, b"code".to_vec());
    ctx.raw_set_data(b"k", b"v");
    ctx.finish_call().unwrap();
    assert_eq!(ctx.get_balance_for("source"), 850);
    assert_eq!(ctx.get_balance_for("module1"), 150);
    assert_eq!(ctx.get_balance_for("source") + ctx.get_balance_for("module1"), 1000);
    assert_eq!(ctx.raw_get_data_for("module1", b"k"), b"v".to_vec());
    assert_eq!(ctx.get_call_stack(), vec!["source".to_string()]);
}

#[test]
fn transfer_keeps_the_sum() {
    let mut ctx = context(500);
    ctx.transfer_coins_for("source", "b", 200).unwrap();
    assert_eq!(ctx.get_balance_for("source"), 300);
    assert_eq!(ctx.get_balance_for("b"), 200);
    ctx.transfer_coins_for("b", "source", 50).unwrap();
    assert_eq!(ctx.get_balance_for("source") + ctx.get_balance_for("b"), 500);
    ctx.transfer_coins_for("source", "source", 100).unwrap();
    assert_eq!(ctx.get_balance_for("source"), 350);
}

#[test]
fn failed_credit_restores_the_source() {
    let mut ctx = context(100);
    ctx.fund("full", u64::MAX).unwrap();
    let traced = ctx.trace_records().len();
    assert_eq!(ctx.transfer_coins_for("source", "full", 40), Err(ExecError::Overflow));
    assert_eq!(ctx.trace_records().len(), traced);
    assert_eq!(ctx.get_balance_for("source"), 100);
    assert_eq!(ctx.get_balance_for("full"), u64::MAX);
}

#[test]
fn fund_past_the_largest_balance_fails() {
    let mut ctx = context(u64::MAX);
    assert_eq!(ctx.fund("source", 1), Err(ExecError::Overflow));
    assert_eq!(ctx.get_balance_for("source"), u64::MAX);
    assert_eq!(ctx.fund("other", 7), Ok(()));
    assert_eq!(ctx.get_balance_for("other"), 7);
}

#[test]
fn insufficient_funds_changes_nothing() {
    let mut ctx = context(10);
    assert_eq!(ctx.transfer_coins("b", 11), Err(ExecError::InsufficientFunds));
    assert_eq!(ctx.get_balance_for("source"), 10);
    assert_eq!(ctx.get_balance_for("b"), 0);
    assert_eq!(ctx.init_call("b", 11), Err(ExecError::InsufficientFunds));
    assert_eq!(ctx.get_call_stack().len(), 1);
}

#[test]
fn stack_depth_follows_calls() {
    let mut ctx = context(100);
    assert_eq!(ctx.finish_call(), Err(ExecError::CallStackUnderflow));
    assert_eq!(ctx.get_call_stack().len(), 1);
    ctx.init_call("a", 0).unwrap();
    ctx.init_call("b", 0).unwrap();
    ctx.init_call("c", 0).unwrap();
    ctx.finish_call().unwrap();
    assert_eq!(ctx.get_call_stack(), vec!["source".to_string(), "a".to_string(), "b".to_string()]);
    ctx.finish_call().unwrap();
    ctx.finish_call().unwrap();
    assert_eq!(ctx.finish_call(), Err(ExecError::CallStackUnderflow));
    assert_eq!(ctx.get_call_stack(), vec!["source".to_string()]);
}

#[test]
fn call_coins_are_those_sent() {
    let mut ctx = context(100);
    assert_eq!(ctx.get_call_coins(), 0);
    ctx.init_call("a", 30).unwrap();
    assert_eq!(ctx.get_call_coins(), 30);
    assert_eq!(ctx.get_balance(), 30);
}

#[test]
fn writes_need_access() {
    let mut ctx = context(100);
    assert_eq!(ctx.raw_set_data_for("other", b"k", b"v"), Err(ExecError::WriteAccessDenied));
    assert!(!ctx.has_data(b"k"));
    assert_eq!(ctx.raw_get_data_for("other", b"k"), Vec::<u8>::new());
    assert_eq!(ctx.raw_set_data_for("source", b"k", b"v"), Ok(()));
    assert!(ctx.has_data(b"k"));
    assert_eq!(ctx.raw_get_data(b"k"), b"v".to_vec());
    ctx.create_module(b"m", "owned").unwrap();
    assert_eq!(ctx.raw_set_data_for("owned", b"x", b"y"), Ok(()));
    assert_eq!(ctx.raw_get_data_for("owned", b"x"), b"y".to_vec());
    ctx.init_call("callee", 0).unwrap();
    assert_eq!(ctx.raw_set_data_for("source", b"k", b"w"), Err(ExecError::WriteAccessDenied));
    assert_eq!(ctx.raw_set_data_for("owned", b"x", b"z"), Ok(()));
    assert_eq!(ctx.raw_get_data_for("source", b"k"), b"v".to_vec());
}

#[test]
fn untouched_address_reads_default() {
    let mut ctx = context(100);
    assert_eq!(ctx.get_balance_for("nobody"), 0);
    assert_eq!(ctx.raw_get_data_for("nobody", b"k"), Vec::<u8>::new());
    assert_eq!(ctx.init_call("nobody", 0), Ok(Vec::new()));
}

#[test]
fn trace_holds_one_record_per_success() {
    let mut ctx = context(100);
    ctx.print("hello");
    ctx.get_balance();
    ctx.transfer_coins("b", 10).unwrap();
    assert!(ctx.transfer_coins("b", 1000).is_err());
    assert!(ctx.raw_set_data_for("c", b"k", b"v").is_err());
    assert!(ctx.finish_call().is_err());
    ctx.get_current_period();
    let trace = ctx.take_trace();
    assert_eq!(trace.len(), 4);
    assert!(matches!(&trace[0], TraceRecord::Print { message } if message == "hello"));
    assert!(matches!(&trace[1], TraceRecord::GetBalance { return_value: 100 }));
    assert!(matches!(&trace[2], TraceRecord::TransferCoins { to_address, raw_amount: 10 } if to_address == "b"));
    assert!(matches!(&trace[3], TraceRecord::GetCurrentPeriod { return_value: 3 }));
    assert_eq!(ctx.trace_records().len(), 0);
}

#[test]
fn module_address_must_be_fresh() {
    let mut ctx = context(100);
    assert_eq!(ctx.create_module(b"m", "source"), Err(ExecError::AddressCollision));
    ctx.create_module(b"m", "fresh").unwrap();
    assert_eq!(ctx.create_module(b"n", "fresh"), Err(ExecError::AddressCollision));
    assert_eq!(ctx.get_owned_addresses(), vec!["fresh".to_string()]);
    assert_eq!(ctx.init_call("fresh", 0), Ok(b"m".to_vec()));
}

#[test]
fn bytecode_can_be_replaced() {
    let mut ctx = context(100);
    ctx.raw_set_bytecode(b"self");
    ctx.raw_set_bytecode_for("other", b"theirs");
    assert_eq!(ctx.init_call("other", 0), Ok(b"theirs".to_vec()));
    assert_eq!(ctx.init_call("source", 0), Ok(b"self".to_vec()));
}

#[test]
fn caller_access_compares_frames() {
    let mut ctx = context(100);
    assert!(ctx.caller_has_write_access());
    ctx.init_call("sour", 0).unwrap();
    assert!(!ctx.caller_has_write_access());
    ctx.init_call("sour", 0).unwrap();
    assert!(ctx.caller_has_write_access());
    ctx.finish_call().unwrap();
    ctx.init_call("sourcex", 0).unwrap();
    assert!(!ctx.caller_has_write_access());
}

#[test]
fn slot_is_reported() {
    let mut ctx = context(0);
    assert_eq!(ctx.get_current_period(), 3);
    assert_eq!(ctx.get_current_thread(), 1);
    ctx.set_slot(Slot { period: 9, thread: 4 });
    assert_eq!(ctx.get_current_period(), 9);
    assert_eq!(ctx.get_current_thread(), 4);
}

#[test]
fn message_and_event_are_traced() {
    let mut ctx = context(0);
    ctx.generate_event("ping".to_string());
    ctx.send_message("t", "h", Slot { period: 5, thread: 0 }, Slot { period: 6, thread: 2 }, 10, 2, 3, b"d");
    let trace = ctx.take_trace();
    assert!(matches!(&trace[0], TraceRecord::GenerateEvent { data } if data == "ping"));
    match &trace[1] {
        TraceRecord::SendMessage { sender_address, target_address, validity_end, max_gas, data, .. } => {
            assert_eq!(sender_address, "source");
            assert_eq!(target_address, "t");
            assert_eq!(*validity_end, Slot { period: 6, thread: 2 });
            assert_eq!(*max_gas, 10);
            assert_eq!(data, &b"d".to_vec());
        }
        other => panic!("unexpected record {:?}", other),
    }
}

#[test]
fn hash_hands_back_the_digest() {
    let mut ctx = context(0);
    let digest = [7u8; 32];
    assert_eq!(ctx.hash(b"key", digest, "abc"), digest);
    let trace = ctx.take_trace();
    assert!(matches!(&trace[0], TraceRecord::Hash { key, return_value } if key == b"key" && return_value == "abc"));
}

#[test]
fn random_value_is_traced() {
    let mut ctx = context(0);
    let n = ctx.unsafe_random();
    let trace = ctx.take_trace();
    assert!(matches!(&trace[0], TraceRecord::UnsafeRandom { return_value } if *return_value == n));
}
