use side_ledger::entity::{
    Deposit, DepositInput, Digest, MainRef, MinimalAddress, MinimalBody, MinimalHeader,
    MinimalInput, MinimalSignature, Outpoint, Output, RefundInput, Transaction, Withdrawal,
};
use side_ledger::oracle::MainState;
use side_ledger::state::MinimalState;

fn address(n: u64) -> MinimalAddress {
    MinimalAddress(n)
}

fn signature(n: u64) -> MinimalSignature {
    MinimalSignature(n)
}

fn output(amount: u64, addr: u64) -> Output {
    Output { amount, address: address(addr) }
}

fn empty_tx(txid: u64) -> Transaction {
    Transaction {
        txid: Digest(txid),
        deposit_inputs: Vec::new(),
        refund_inputs: Vec::new(),
        inputs: Vec::new(),
        withdrawals: Vec::new(),
        outputs: Vec::new(),
    }
}

fn header(h: u64) -> MinimalHeader {
    MinimalHeader { block_hash: Digest(h) }
}

/// A state holding one unspent 100-unit output locked to address 1,
/// spendable with signature 1.
fn state_with_utxo(amount: u64) -> (MinimalState, Outpoint) {
    let op = Outpoint::Coinbase { block_hash: Digest(900), n: 0 };
    let st = MinimalState {
        utxos: vec![op],
        outputs: vec![(op, output(amount, 1))],
    };
    (st, op)
}

#[test]
fn scenario_coinbase_only_block_accepted() {
    let st = MinimalState::default();
    let main = MainState::default();
    let body = MinimalBody { coinbase: vec![output(50, 1)], transactions: Vec::new() };
    assert!(st.validate_block(&main, &header(1), &body));
}

#[test]
fn empty_body_zero_coinbase_accepted() {
    let st = MinimalState::default();
    let main = MainState::default();
    let body = MinimalBody::default();
    assert!(st.validate_block(&main, &header(1), &body));
}

#[test]
fn unfunded_transaction_output_rejected() {
    // A transaction minting 50 from nothing, with no coinbase to declare
    // it: production exceeds consumption plus coinbase, so the block is
    // rejected.
    let st = MinimalState::default();
    let main = MainState::default();
    let mut tx = empty_tx(2);
    tx.outputs = vec![output(50, 1)];
    let body = MinimalBody { coinbase: Vec::new(), transactions: vec![tx] };
    assert!(!st.validate_block(&main, &header(1), &body));
}

#[test]
fn scenario_spend_known_utxo_accepted() {
    let (st, op) = state_with_utxo(100);
    let main = MainState::default();
    let mut tx = empty_tx(2);
    tx.inputs = vec![MinimalInput { outpoint: op, signature: signature(1) }];
    tx.outputs = vec![output(100, 5)];
    let body = MinimalBody { coinbase: Vec::new(), transactions: vec![tx] };
    assert!(st.validate_block(&main, &header(3), &body));
}

#[test]
fn scenario_bad_signature_rejected() {
    let (st, op) = state_with_utxo(100);
    let main = MainState::default();
    let mut tx = empty_tx(2);
    tx.inputs = vec![MinimalInput { outpoint: op, signature: signature(2) }];
    tx.outputs = vec![output(100, 5)];
    let body = MinimalBody { coinbase: Vec::new(), transactions: vec![tx] };
    assert!(!st.validate_block(&main, &header(3), &body));
}

#[test]
fn flipped_signature_bit_rejected() {
    // The same accepted spend as scenario_spend_known_utxo_accepted, with
    // one bit of the signature flipped: rejected.
    let (st, op) = state_with_utxo(100);
    let main = MainState::default();
    let mut tx = empty_tx(2);
    tx.inputs = vec![MinimalInput { outpoint: op, signature: signature(1 ^ 4) }];
    tx.outputs = vec![output(100, 5)];
    let body = MinimalBody { coinbase: Vec::new(), transactions: vec![tx] };
    assert!(!st.validate_block(&main, &header(3), &body));
}

#[test]
fn scenario_deposit_claim_accepted() {
    let st = MinimalState::default();
    let main = MainState {
        deposits: vec![(MainRef(7), Deposit { amount: 30, address: address(4) })],
        withdrawals: Vec::new(),
    };
    let mut tx = empty_tx(2);
    tx.deposit_inputs = vec![DepositInput { outpoint: MainRef(7), signature: signature(4) }];
    tx.outputs = vec![output(30, 5)];
    let body = MinimalBody { coinbase: Vec::new(), transactions: vec![tx] };
    assert!(st.validate_block(&main, &header(3), &body));
}

#[test]
fn scenario_missing_utxo_rejected() {
    // The referenced outpoint is not in the output index: rejected
    // regardless of amounts.
    let st = MinimalState::default();
    let main = MainState::default();
    let mut tx = empty_tx(2);
    tx.inputs = vec![MinimalInput {
        outpoint: Outpoint::Regular { txid: Digest(77), n: 0 },
        signature: signature(1),
    }];
    tx.outputs = vec![output(0, 5)];
    let body = MinimalBody { coinbase: Vec::new(), transactions: vec![tx] };
    assert!(!st.validate_block(&main, &header(3), &body));
}

#[test]
fn missing_deposit_rejected() {
    let st = MinimalState::default();
    let main = MainState::default();
    let mut tx = empty_tx(2);
    tx.deposit_inputs = vec![DepositInput { outpoint: MainRef(7), signature: signature(4) }];
    tx.outputs = vec![output(30, 5)];
    let body = MinimalBody { coinbase: Vec::new(), transactions: vec![tx] };
    assert!(!st.validate_block(&main, &header(3), &body));
}

#[test]
fn refund_claim_accepted_and_missing_refund_rejected() {
    let st = MinimalState::default();
    let main = MainState {
        deposits: Vec::new(),
        withdrawals: vec![(MainRef(8), Withdrawal { amount: 20, address: address(6) })],
    };
    let mut tx = empty_tx(2);
    tx.refund_inputs = vec![RefundInput { outpoint: MainRef(8), signature: signature(6) }];
    tx.outputs = vec![output(20, 5)];
    let body = MinimalBody { coinbase: Vec::new(), transactions: vec![tx] };
    assert!(st.validate_block(&main, &header(3), &body));

    let empty_main = MainState::default();
    assert!(!st.validate_block(&empty_main, &header(3), &body));
}

#[test]
fn refund_bad_signature_rejected() {
    let st = MinimalState::default();
    let main = MainState {
        deposits: Vec::new(),
        withdrawals: vec![(MainRef(8), Withdrawal { amount: 20, address: address(6) })],
    };
    let mut tx = empty_tx(2);
    tx.refund_inputs = vec![RefundInput { outpoint: MainRef(8), signature: signature(7) }];
    tx.outputs = vec![output(20, 5)];
    let body = MinimalBody { coinbase: Vec::new(), transactions: vec![tx] };
    assert!(!st.validate_block(&main, &header(3), &body));
}

#[test]
fn deposit_bad_signature_rejected() {
    let st = MinimalState::default();
    let main = MainState {
        deposits: vec![(MainRef(7), Deposit { amount: 30, address: address(4) })],
        withdrawals: Vec::new(),
    };
    let mut tx = empty_tx(2);
    tx.deposit_inputs = vec![DepositInput { outpoint: MainRef(7), signature: signature(5) }];
    tx.outputs = vec![output(30, 5)];
    let body = MinimalBody { coinbase: Vec::new(), transactions: vec![tx] };
    assert!(!st.validate_block(&main, &header(3), &body));
}

#[test]
fn withdrawal_counts_as_production() {
    // Spend 100, keep 40 inside, send 60 out: conserved, accepted.
    let (st, op) = state_with_utxo(100);
    let main = MainState::default();
    let mut tx = empty_tx(2);
    tx.inputs = vec![MinimalInput { outpoint: op, signature: signature(1) }];
    tx.outputs = vec![output(40, 5)];
    tx.withdrawals = vec![Withdrawal { amount: 60, address: address(9) }];
    let body = MinimalBody { coinbase: Vec::new(), transactions: vec![tx] };
    assert!(st.validate_block(&main, &header(3), &body));
}

#[test]
fn underflow_rejected_not_wrapped() {
    // Production (30) falls short of consumption (100): the unsigned
    // subtraction would underflow, so the block is rejected.
    let (st, op) = state_with_utxo(100);
    let main = MainState::default();
    let mut tx = empty_tx(2);
    tx.inputs = vec![MinimalInput { outpoint: op, signature: signature(1) }];
    tx.outputs = vec![output(30, 5)];
    let body = MinimalBody { coinbase: Vec::new(), transactions: vec![tx] };
    assert!(!st.validate_block(&main, &header(3), &body));
}

#[test]
fn overflowing_output_total_rejected() {
    let st = MinimalState::default();
    let main = MainState::default();
    let body = MinimalBody {
        coinbase: vec![output(u64::MAX, 1), output(3, 1)],
        transactions: Vec::new(),
    };
    assert!(!st.validate_block(&main, &header(1), &body));
}

#[test]
fn duplicate_spend_in_one_block_rejected() {
    // The same outpoint claimed by two spends of one block: rejected even
    // though each resolves against the unmutated state.
    let (st, op) = state_with_utxo(100);
    let main = MainState::default();
    let mut tx = empty_tx(2);
    tx.inputs = vec![
        MinimalInput { outpoint: op, signature: signature(1) },
        MinimalInput { outpoint: op, signature: signature(1) },
    ];
    tx.outputs = vec![output(200, 5)];
    let body = MinimalBody { coinbase: Vec::new(), transactions: vec![tx] };
    assert!(!st.validate_block(&main, &header(3), &body));
}

#[test]
fn duplicate_deposit_claim_rejected() {
    let st = MinimalState::default();
    let main = MainState {
        deposits: vec![(MainRef(7), Deposit { amount: 30, address: address(4) })],
        withdrawals: Vec::new(),
    };
    let mut tx = empty_tx(2);
    tx.deposit_inputs = vec![
        DepositInput { outpoint: MainRef(7), signature: signature(4) },
        DepositInput { outpoint: MainRef(7), signature: signature(4) },
    ];
    tx.outputs = vec![output(60, 5)];
    let body = MinimalBody { coinbase: Vec::new(), transactions: vec![tx] };
    assert!(!st.validate_block(&main, &header(3), &body));
}

#[test]
fn conservation_numbers_exact() {
    // Consumption: 100 spent + 30 deposited = 130. With no coinbase the
    // block must produce exactly 130 across outputs and withdrawals.
    let (st, op) = state_with_utxo(100);
    let main = MainState {
        deposits: vec![(MainRef(7), Deposit { amount: 30, address: address(4) })],
        withdrawals: Vec::new(),
    };
    let mut tx = empty_tx(2);
    tx.inputs = vec![MinimalInput { outpoint: op, signature: signature(1) }];
    tx.deposit_inputs = vec![DepositInput { outpoint: MainRef(7), signature: signature(4) }];
    tx.outputs = vec![output(80, 5), output(25, 6)];
    tx.withdrawals = vec![Withdrawal { amount: 25, address: address(9) }];
    let body = MinimalBody { coinbase: Vec::new(), transactions: vec![tx] };
    // 80 + 25 + 25 = 130 = 100 + 30: conserved.
    assert!(st.validate_block(&main, &header(3), &body));

    let mut tx_short = empty_tx(2);
    tx_short.inputs = vec![MinimalInput { outpoint: op, signature: signature(1) }];
    tx_short.deposit_inputs =
        vec![DepositInput { outpoint: MainRef(7), signature: signature(4) }];
    tx_short.outputs = vec![output(80, 5), output(20, 6)];
    tx_short.withdrawals = vec![Withdrawal { amount: 25, address: address(9) }];
    let body_short = MinimalBody { coinbase: Vec::new(), transactions: vec![tx_short] };
    // 80 + 20 + 25 = 125 != 130: not conserved.
    assert!(!st.validate_block(&main, &header(3), &body_short));
}

#[test]
fn connect_applies_block_effects() {
    let mut st = MinimalState::default();
    let main = MainState::default();
    let h = header(1);
    let body = MinimalBody { coinbase: vec![output(100, 1)], transactions: Vec::new() };
    assert!(st.validate_block(&main, &h, &body));
    st.connect(&h, &body).unwrap();
    let op = Outpoint::Coinbase { block_hash: Digest(1), n: 0 };
    assert!(st.utxos.contains(&op));
    assert_eq!(st.get_output(&op), Some(output(100, 1)));
}

#[test]
fn connect_marks_spent_outpoints() {
    let (mut st, op) = state_with_utxo(100);
    let h = header(3);
    let mut tx = empty_tx(2);
    tx.inputs = vec![MinimalInput { outpoint: op, signature: signature(1) }];
    tx.outputs = vec![output(100, 5)];
    let body = MinimalBody { coinbase: Vec::new(), transactions: vec![tx] };
    st.connect(&h, &body).unwrap();
    assert!(!st.utxos.contains(&op));
    let new_op = Outpoint::Regular { txid: Digest(2), n: 0 };
    assert!(st.utxos.contains(&new_op));
    // The spent output's record is retained in the index.
    assert_eq!(st.get_output(&op), Some(output(100, 1)));
    assert_eq!(st.get_output(&new_op), Some(output(100, 5)));
}

#[test]
fn round_trip_restores_state() {
    let (st0, op) = state_with_utxo(100);
    let h = header(3);
    let mut tx = empty_tx(2);
    tx.inputs = vec![MinimalInput { outpoint: op, signature: signature(1) }];
    tx.outputs = vec![output(100, 5)];
    let body = MinimalBody { coinbase: vec![output(7, 8)], transactions: vec![tx] };
    let mut st = st0.clone();
    st.connect(&h, &body).unwrap();
    assert_ne!(st, st0);
    st.disconnect(&h, &body).unwrap();
    assert_eq!(st, st0);
}

#[test]
fn projection_outpoints_distinct() {
    let mut tx_a = empty_tx(2);
    tx_a.outputs = vec![output(1, 1), output(2, 1)];
    let mut tx_b = empty_tx(4);
    tx_b.outputs = vec![output(3, 1)];
    let body = MinimalBody {
        coinbase: vec![output(5, 1), output(6, 1)],
        transactions: vec![tx_a, tx_b],
    };
    let h = header(1);
    let created = body.outputs(&h);
    assert_eq!(created.len(), 5);
    for i in 0..created.len() {
        for j in (i + 1)..created.len() {
            assert_ne!(created[i].0, created[j].0);
        }
    }
    assert_eq!(created[0].0, Outpoint::Coinbase { block_hash: Digest(1), n: 0 });
    assert_eq!(created[2].0, Outpoint::Regular { txid: Digest(2), n: 0 });
    assert_eq!(created[4].0, Outpoint::Regular { txid: Digest(4), n: 0 });
}

#[test]
fn projection_flattens_in_order() {
    let op_a = Outpoint::Regular { txid: Digest(50), n: 0 };
    let op_b = Outpoint::Regular { txid: Digest(51), n: 1 };
    let mut tx_a = empty_tx(2);
    tx_a.inputs = vec![MinimalInput { outpoint: op_a, signature: signature(1) }];
    tx_a.withdrawals = vec![Withdrawal { amount: 5, address: address(1) }];
    let mut tx_b = empty_tx(4);
    tx_b.inputs = vec![MinimalInput { outpoint: op_b, signature: signature(2) }];
    tx_b.deposit_inputs = vec![DepositInput { outpoint: MainRef(1), signature: signature(3) }];
    tx_b.refund_inputs = vec![RefundInput { outpoint: MainRef(2), signature: signature(4) }];
    let body = MinimalBody { coinbase: Vec::new(), transactions: vec![tx_a, tx_b] };
    let ins = body.inputs();
    assert_eq!(ins.len(), 2);
    assert_eq!(ins[0].outpoint, op_a);
    assert_eq!(ins[1].outpoint, op_b);
    assert_eq!(body.deposit_inputs().len(), 1);
    assert_eq!(body.refund_inputs().len(), 1);
    assert_eq!(body.withdrawals().len(), 1);
}

#[test]
fn check_signature_accepts_exactly_one_value() {
    let addr = address(42);
    assert!(addr.check_signature(&signature(42)));
    assert!(!addr.check_signature(&signature(43)));
    assert!(!addr.check_signature(&signature(0)));
}

#[test]
fn oracle_lookups() {
    let main = MainState {
        deposits: vec![(MainRef(1), Deposit { amount: 10, address: address(2) })],
        withdrawals: vec![(MainRef(3), Withdrawal { amount: 4, address: address(5) })],
    };
    assert_eq!(
        main.get_deposit(&MainRef(1)),
        Some(Deposit { amount: 10, address: address(2) })
    );
    assert_eq!(main.get_deposit(&MainRef(2)), None);
    assert_eq!(
        main.get_withdrawal(&MainRef(3)),
        Some(Withdrawal { amount: 4, address: address(5) })
    );
    assert_eq!(main.get_withdrawal(&MainRef(1)), None);
}

#[test]
fn validate_does_not_mutate() {
    let (st, op) = state_with_utxo(100);
    let before = st.clone();
    let main = MainState::default();
    let mut tx = empty_tx(2);
    tx.inputs = vec![MinimalInput { outpoint: op, signature: signature(1) }];
    tx.outputs = vec![output(100, 5)];
    let body = MinimalBody { coinbase: Vec::new(), transactions: vec![tx] };
    let _ = st.validate_block(&main, &header(3), &body);
    assert_eq!(st, before);
}
