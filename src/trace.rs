use vstd::prelude::*;

verus! {

/// A virtual-time coordinate: block period and parallel lane.
#[derive(Debug, Clone, Copy, PartialEq, Eq, Structural)]
pub struct Slot {
    pub period: u64,
    pub thread: u8,
}

/// The texts of a list of strings.
pub open spec fn strings_view(v: Seq<String>) -> Seq<Seq<char>> {
    v.map_values(|s: String| s@)
}

/// One operation with its arguments and the value it returned.
#[derive(Debug)]
#[allow(inconsistent_fields)]
pub enum TraceRecord {
    Print { message: String },
    InitCall { address: String, coins: u64, return_value: Vec<u8> },
    FinishCall,
    GetBalance { return_value: u64 },
    GetBalanceFor { address: String, return_value: u64 },
    CreateModule { module: Vec<u8>, return_value: String },
    RawGetDataFor { address: String, key: Vec<u8>, return_value: Vec<u8> },
    RawSetDataFor { address: String, key: Vec<u8>, value: Vec<u8> },
    RawGetData { key: Vec<u8>, return_value: Vec<u8> },
    RawSetData { key: Vec<u8>, value: Vec<u8> },
    TransferCoins { to_address: String, raw_amount: u64 },
    TransferCoinsFor { from_address: String, to_address: String, raw_amount: u64 },
    GetOwnedAddresses { return_value: Vec<String> },
    GetCallStack { return_value: Vec<String> },
    GenerateEvent { data: String },
    GetCallCoins { return_value: u64 },
    HasData { key: Vec<u8>, return_value: bool },
    Hash { key: Vec<u8>, return_value: String },
    RawSetBytecodeFor { address: String, bytecode: Vec<u8> },
    RawSetBytecode { bytecode: Vec<u8> },
    UnsafeRandom { return_value: i64 },
    GetCurrentPeriod { return_value: u64 },
    GetCurrentThread { return_value: u8 },
    SendMessage { sender_address: String, target_address: String, target_handler: String, validity_start: Slot, validity_end: Slot, max_gas: u64, gas_price: u64, coins: u64, data: Vec<u8> },
    CallerHasWriteAccess { return_value: bool },
}

/// A trace record as mathematical values.
#[allow(inconsistent_fields)]
pub enum TraceEntry {
    Print { message: Seq<char> },
    InitCall { address: Seq<char>, coins: u64, return_value: Seq<u8> },
    FinishCall,
    GetBalance { return_value: u64 },
    GetBalanceFor { address: Seq<char>, return_value: u64 },
    CreateModule { module: Seq<u8>, return_value: Seq<char> },
    RawGetDataFor { address: Seq<char>, key: Seq<u8>, return_value: Seq<u8> },
    RawSetDataFor { address: Seq<char>, key: Seq<u8>, value: Seq<u8> },
    RawGetData { key: Seq<u8>, return_value: Seq<u8> },
    RawSetData { key: Seq<u8>, value: Seq<u8> },
    TransferCoins { to_address: Seq<char>, raw_amount: u64 },
    TransferCoinsFor { from_address: Seq<char>, to_address: Seq<char>, raw_amount: u64 },
    GetOwnedAddresses { return_value: Seq<Seq<char>> },
    GetCallStack { return_value: Seq<Seq<char>> },
    GenerateEvent { data: Seq<char> },
    GetCallCoins { return_value: u64 },
    HasData { key: Seq<u8>, return_value: bool },
    Hash { key: Seq<u8>, return_value: Seq<char> },
    RawSetBytecodeFor { address: Seq<char>, bytecode: Seq<u8> },
    RawSetBytecode { bytecode: Seq<u8> },
    UnsafeRandom { return_value: i64 },
    GetCurrentPeriod { return_value: u64 },
    GetCurrentThread { return_value: u8 },
    SendMessage { sender_address: Seq<char>, target_address: Seq<char>, target_handler: Seq<char>, validity_start: Slot, validity_end: Slot, max_gas: u64, gas_price: u64, coins: u64, data: Seq<u8> },
    CallerHasWriteAccess { return_value: bool },
}

impl View for TraceRecord {
    type V = TraceEntry;

    open spec fn view(&self) -> TraceEntry {
        match self {
            TraceRecord::Print { message } => TraceEntry::Print { message: message@ },
            TraceRecord::InitCall { address, coins, return_value } => TraceEntry::InitCall { address: address@, coins: *coins, return_value: return_value@ },
            TraceRecord::FinishCall => TraceEntry::FinishCall,
            TraceRecord::GetBalance { return_value } => TraceEntry::GetBalance { return_value: *return_value },
            TraceRecord::GetBalanceFor { address, return_value } => TraceEntry::GetBalanceFor { address: address@, return_value: *return_value },
            TraceRecord::CreateModule { module, return_value } => TraceEntry::CreateModule { module: module@, return_value: return_value@ },
            TraceRecord::RawGetDataFor { address, key, return_value } => TraceEntry::RawGetDataFor { address: address@, key: key@, return_value: return_value@ },
            TraceRecord::RawSetDataFor { address, key, value } => TraceEntry::RawSetDataFor { address: address@, key: key@, value: value@ },
            TraceRecord::RawGetData { key, return_value } => TraceEntry::RawGetData { key: key@, return_value: return_value@ },
            TraceRecord::RawSetData { key, value } => TraceEntry::RawSetData { key: key@, value: value@ },
            TraceRecord::TransferCoins { to_address, raw_amount } => TraceEntry::TransferCoins { to_address: to_address@, raw_amount: *raw_amount },
            TraceRecord::TransferCoinsFor { from_address, to_address, raw_amount } => TraceEntry::TransferCoinsFor { from_address: from_address@, to_address: to_address@, raw_amount: *raw_amount },
            TraceRecord::GetOwnedAddresses { return_value } => TraceEntry::GetOwnedAddresses { return_value: strings_view(return_value@) },
            TraceRecord::GetCallStack { return_value } => TraceEntry::GetCallStack { return_value: strings_view(return_value@) },
            TraceRecord::GenerateEvent { data } => TraceEntry::GenerateEvent { data: data@ },
            TraceRecord::GetCallCoins { return_value } => TraceEntry::GetCallCoins { return_value: *return_value },
            TraceRecord::HasData { key, return_value } => TraceEntry::HasData { key: key@, return_value: *return_value },
            TraceRecord::Hash { key, return_value } => TraceEntry::Hash { key: key@, return_value: return_value@ },
            TraceRecord::RawSetBytecodeFor { address, bytecode } => TraceEntry::RawSetBytecodeFor { address: address@, bytecode: bytecode@ },
            TraceRecord::RawSetBytecode { bytecode } => TraceEntry::RawSetBytecode { bytecode: bytecode@ },
            TraceRecord::UnsafeRandom { return_value } => TraceEntry::UnsafeRandom { return_value: *return_value },
            TraceRecord::GetCurrentPeriod { return_value } => TraceEntry::GetCurrentPeriod { return_value: *return_value },
            TraceRecord::GetCurrentThread { return_value } => TraceEntry::GetCurrentThread { return_value: *return_value },
            TraceRecord::SendMessage { sender_address, target_address, target_handler, validity_start, validity_end, max_gas, gas_price, coins, data } => TraceEntry::SendMessage { sender_address: sender_address@, target_address: target_address@, target_handler: target_handler@, validity_start: *validity_start, validity_end: *validity_end, max_gas: *max_gas, gas_price: *gas_price, coins: *coins, data: data@ },
            TraceRecord::CallerHasWriteAccess { return_value } => TraceEntry::CallerHasWriteAccess { return_value: *return_value },
        }
    }
}

/// The records of a trace, as mathematical values.
pub open spec fn trace_view(v: Seq<TraceRecord>) -> Seq<TraceEntry> {
    v.map_values(|r: TraceRecord| r@)
}

} // verus!
