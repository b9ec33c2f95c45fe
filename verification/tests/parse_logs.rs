use heracles::decoder::parse_logs_response;
use heracles::decoder::parse_logs_with;
use heracles::decoder::scopes;
use heracles::decoder::LogsResponse;
use heracles::event::Event;
use heracles::record::FieldValue;
use heracles::schema::EventKind;
use heracles::schema::Schema;

const PUMP_AMM: &str = "pAMMBay6oceH9fJKBRHGP5D4bD4sWpmSwMn52FMfXEA";

const BUY_LINE: &str = "Program data: Z/RSHyz1d3d1SOpnAAAAAGb4hZQHAAAAia4KGQAAAAAAAAAAAAAAAITRnPLlBQAAfIUSmXIuAACsgqb2mAAAAOyx+hgAAAAAFAAAAAAAAAAWygwAAAAAAAUAAAAAAAAAhjIDAAAAAAACfAcZAAAAAIiuChkAAAAAs2KoY0K+8wW11Mzg7EPJF5YwXehmJXMsVZt7MEYcSPIU6zbh3Tj7uDLsYRbIHIH8Nxc2EsCB0aH03gYW/tnNAIr01Uaez9OsUAzDGS6qy0F7QYyFfp5dj72V3hxIbzYm0bqMzqITUWXmdMfp+z3UPNRElWs2FFc6IsqBgy9R1gFjg3MADqIssmTTSv9koEte+r+7dN3NBImXsZgVR9fREAe0ZyjFA6fIFZjsUWe5tjKg2nvc6Y8HxZZ7EO1veKHO";

fn response(logs: Vec<String>) -> LogsResponse {
    LogsResponse { slot: 0, signature: "test_signature".to_string(), failed: false, logs }
}

fn buy_trace() -> Vec<String> {
    vec![
        "Program ComputeBudget111111111111111111111111111111 invoke [1]".to_string(),
        "Program ComputeBudget111111111111111111111111111111 success".to_string(),
        "Program ComputeBudget111111111111111111111111111111 invoke [1]".to_string(),
        "Program ComputeBudget111111111111111111111111111111 success".to_string(),
        "Program sattCHvHkM4XHLyadnU4KQtuNWZbWVDKzuPhmJBXCkq invoke [1]".to_string(),
        "Program pAMMBay6oceH9fJKBRHGP5D4bD4sWpmSwMn52FMfXEA invoke [2]".to_string(),
        "Program log: Instruction: Buy".to_string(),
        "Program TokenkegQfeZyiNwAJbNbGKPFXCWuBvf9Ss623VQ5DA invoke [3]".to_string(),
        "Program log: Instruction: TransferChecked".to_string(),
        "Program TokenkegQfeZyiNwAJbNbGKPFXCWuBvf9Ss623VQ5DA consumed 6147 of 199168 compute units".to_string(),
        "Program TokenkegQfeZyiNwAJbNbGKPFXCWuBvf9Ss623VQ5DA success".to_string(),
        "Program TokenkegQfeZyiNwAJbNbGKPFXCWuBvf9Ss623VQ5DA invoke [3]".to_string(),
        "Program log: Instruction: TransferChecked".to_string(),
        "Program TokenkegQfeZyiNwAJbNbGKPFXCWuBvf9Ss623VQ5DA consumed 6238 of 190354 compute units".to_string(),
        "Program TokenkegQfeZyiNwAJbNbGKPFXCWuBvf9Ss623VQ5DA success".to_string(),
        "Program TokenkegQfeZyiNwAJbNbGKPFXCWuBvf9Ss623VQ5DA invoke [3]".to_string(),
        "Program log: Instruction: TransferChecked".to_string(),
        "Program TokenkegQfeZyiNwAJbNbGKPFXCWuBvf9Ss623VQ5DA consumed 6238 of 181464 compute units".to_string(),
        "Program TokenkegQfeZyiNwAJbNbGKPFXCWuBvf9Ss623VQ5DA success".to_string(),
        BUY_LINE.to_string(),
        "Program pAMMBay6oceH9fJKBRHGP5D4bD4sWpmSwMn52FMfXEA invoke [3]".to_string(),
        "Program pAMMBay6oceH9fJKBRHGP5D4bD4sWpmSwMn52FMfXEA consumed 2004 of 169362 compute units".to_string(),
        "Program pAMMBay6oceH9fJKBRHGP5D4bD4sWpmSwMn52FMfXEA success".to_string(),
        "Program pAMMBay6oceH9fJKBRHGP5D4bD4sWpmSwMn52FMfXEA consumed 58848 of 225667 compute units".to_string(),
        "Program pAMMBay6oceH9fJKBRHGP5D4bD4sWpmSwMn52FMfXEA success".to_string(),
        "Program LBUZKhRxPF3XUpBCjp4YzTKgLccjZhTSDM9YuVaPwxo invoke [2]".to_string(),
        "Program log: Instruction: Swap".to_string(),
        "Program TokenkegQfeZyiNwAJbNbGKPFXCWuBvf9Ss623VQ5DA invoke [3]".to_string(),
        "Program log: Instruction: TransferChecked".to_string(),
        "Program TokenkegQfeZyiNwAJbNbGKPFXCWuBvf9Ss623VQ5DA consumed 6147 of 131294 compute units".to_string(),
        "Program TokenkegQfeZyiNwAJbNbGKPFXCWuBvf9Ss623VQ5DA success".to_string(),
        "Program TokenkegQfeZyiNwAJbNbGKPFXCWuBvf9Ss623VQ5DA invoke [3]".to_string(),
        "Program log: Instruction: TransferChecked".to_string(),
        "Program TokenkegQfeZyiNwAJbNbGKPFXCWuBvf9Ss623VQ5DA consumed 6238 of 121605 compute units".to_string(),
        "Program TokenkegQfeZyiNwAJbNbGKPFXCWuBvf9Ss623VQ5DA success".to_string(),
        "Program LBUZKhRxPF3XUpBCjp4YzTKgLccjZhTSDM9YuVaPwxo invoke [3]".to_string(),
        "Program LBUZKhRxPF3XUpBCjp4YzTKgLccjZhTSDM9YuVaPwxo consumed 2135 of 112112 compute units".to_string(),
        "Program LBUZKhRxPF3XUpBCjp4YzTKgLccjZhTSDM9YuVaPwxo success".to_string(),
        "Program LBUZKhRxPF3XUpBCjp4YzTKgLccjZhTSDM9YuVaPwxo consumed 54985 of 163585 compute units".to_string(),
        "Program LBUZKhRxPF3XUpBCjp4YzTKgLccjZhTSDM9YuVaPwxo success".to_string(),
        "Program sattCHvHkM4XHLyadnU4KQtuNWZbWVDKzuPhmJBXCkq consumed 159980 of 268485 compute units".to_string(),
        "Program sattCHvHkM4XHLyadnU4KQtuNWZbWVDKzuPhmJBXCkq success".to_string(),
        "Program ComputeBudget111111111111111111111111111111 invoke [1]".to_string(),
        "Program ComputeBudget111111111111111111111111111111 success".to_string(),
    ]
}

#[test]
fn test_parse_logs_response_buy_event() {
    let response = response(buy_trace());

    let program_id_str = "pAMMBay6oceH9fJKBRHGP5D4bD4sWpmSwMn52FMfXEA";
    let events = parse_logs_response(&response, program_id_str);

    assert!(!events.is_empty(), "No events were parsed from the logs");

    match &events[0] {
        Event::Buy(_) => {
            println!("Successfully parsed a Buy event");
        }
        _ => {
            panic!("First event should be a Buy event, but got: {:?}", events[0]);
        }
    }
}

#[test]
fn test_parse_logs_response_empty_logs() {
    let logs: Vec<String> = Vec::new();
    let response = response(logs);

    let program_id_str = "pAMMBay6oceH9fJKBRHGP5D4bD4sWpmSwMn52FMfXEA";
    let events = parse_logs_response(&response, program_id_str);

    assert!(events.is_empty(), "Should not have parsed any events from empty logs");
}

#[test]
fn buy_trace_gives_exactly_one_event_with_its_fields() {
    let events = parse_logs_response(&response(buy_trace()), PUMP_AMM);
    assert_eq!(events.len(), 1);
    let record = events[0].record();
    assert_eq!(events[0].kind(), EventKind::Buy);
    assert_eq!(record.fields.len(), 20);
    assert_eq!(record.fields[0], FieldValue::I64(1743407221));
    assert_eq!(record.fields[1], FieldValue::U64(32556578918));
    assert_eq!(record.fields[2], FieldValue::U64(420130441));
    assert_eq!(record.fields[3], FieldValue::U64(0));
    assert_eq!(record.fields[4], FieldValue::U64(6485176013188));
    assert_eq!(record.fields[5], FieldValue::U64(51069729277308));
    assert_eq!(record.fields[6], FieldValue::U64(656973136556));
    assert_eq!(record.fields[7], FieldValue::U64(419082732));
    assert_eq!(record.fields[8], FieldValue::U64(20));
    assert_eq!(record.fields[9], FieldValue::U64(838166));
    assert_eq!(record.fields[10], FieldValue::U64(5));
    assert_eq!(record.fields[11], FieldValue::U64(209542));
    assert_eq!(record.fields[12], FieldValue::U64(419920898));
    assert_eq!(record.fields[13], FieldValue::U64(420130440));
    match record.fields[14] {
        FieldValue::Pubkey(key) => {
            assert_eq!(key[0], 0xb3);
            assert_eq!(key[1], 0x62);
            assert_eq!(key[31], 0xf2);
        }
        other => panic!("the pool should be an address, but got: {:?}", other),
    }
    match record.fields[19] {
        FieldValue::Pubkey(key) => assert_eq!(key[31], 0xce),
        other => panic!("the last field should be an address, but got: {:?}", other),
    }
}

#[test]
fn another_program_sees_nothing_in_the_buy_trace() {
    let events =
        parse_logs_response(&response(buy_trace()), "TokenkegQfeZyiNwAJbNbGKPFXCWuBvf9Ss623VQ5DA");
    assert!(events.is_empty());
    let events =
        parse_logs_response(&response(buy_trace()), "sattCHvHkM4XHLyadnU4KQtuNWZbWVDKzuPhmJBXCkq");
    assert!(events.is_empty());
}

#[test]
fn target_is_compared_letter_for_letter() {
    let events =
        parse_logs_response(&response(buy_trace()), "pAMMBay6oceH9fJKBRHGP5D4bD4sWpmSwMn52FMfXE");
    assert!(events.is_empty());
    let events =
        parse_logs_response(&response(buy_trace()), "PAMMBay6oceH9fJKBRHGP5D4bD4sWpmSwMn52FMfXEA");
    assert!(events.is_empty());
}

#[test]
fn data_line_outside_any_invocation_is_passed_over() {
    let events = parse_logs_response(&response(vec![BUY_LINE.to_string()]), PUMP_AMM);
    assert!(events.is_empty());
}

#[test]
fn data_line_after_the_return_is_passed_over() {
    let logs = vec![
        format!("Program {} invoke [1]", PUMP_AMM),
        format!("Program {} success", PUMP_AMM),
        BUY_LINE.to_string(),
    ];
    assert!(parse_logs_response(&response(logs), PUMP_AMM).is_empty());
}

#[test]
fn data_line_after_a_failed_return_is_passed_over() {
    let logs = vec![
        format!("Program {} invoke [1]", PUMP_AMM),
        format!("Program {} failed: custom program error: 0x1", PUMP_AMM),
        BUY_LINE.to_string(),
    ];
    assert!(parse_logs_response(&response(logs), PUMP_AMM).is_empty());
}

#[test]
fn data_line_inside_a_nested_call_belongs_to_the_callee() {
    let logs = vec![
        format!("Program {} invoke [1]", PUMP_AMM),
        "Program TokenkegQfeZyiNwAJbNbGKPFXCWuBvf9Ss623VQ5DA invoke [2]".to_string(),
        BUY_LINE.to_string(),
        "Program TokenkegQfeZyiNwAJbNbGKPFXCWuBvf9Ss623VQ5DA success".to_string(),
        BUY_LINE.to_string(),
    ];
    let events = parse_logs_response(&response(logs), PUMP_AMM);
    assert_eq!(events.len(), 1);
    assert_eq!(events[0].kind(), EventKind::Buy);
}

#[test]
fn return_of_an_unseen_invocation_closes_nothing() {
    let logs = vec![
        format!("Program {} invoke [2]", PUMP_AMM),
        "Program TokenkegQfeZyiNwAJbNbGKPFXCWuBvf9Ss623VQ5DA success".to_string(),
        BUY_LINE.to_string(),
    ];
    let events = parse_logs_response(&response(logs), PUMP_AMM);
    assert_eq!(events.len(), 1);
}

#[test]
fn events_come_in_the_order_of_the_lines() {
    let sell = heracles::schema::Schema::of(EventKind::Sell);
    let mut bytes = sell.discriminator.clone();
    bytes.extend(std::iter::repeat(7u8).take(304));
    let sell_line = format!(
        "Program data: {}",
        base64::Engine::encode(&base64::engine::general_purpose::STANDARD, &bytes)
    );
    let logs = vec![
        format!("Program {} invoke [1]", PUMP_AMM),
        sell_line,
        BUY_LINE.to_string(),
        format!("Program {} success", PUMP_AMM),
    ];
    let events = parse_logs_response(&response(logs), PUMP_AMM);
    assert_eq!(events.len(), 2);
    assert_eq!(events[0].kind(), EventKind::Sell);
    assert_eq!(events[1].kind(), EventKind::Buy);
    assert_eq!(events[0].record().fields[1], FieldValue::U64(0x0707_0707_0707_0707));
}

#[test]
fn line_that_two_schemas_accept_gives_both_events_in_schema_order() {
    let buy = Schema::of(EventKind::Buy);
    let twin = Schema {
        kind: EventKind::Sell,
        discriminator: buy.discriminator.clone(),
        layout: Schema::of(EventKind::Sell).layout,
    };
    let logs = vec![format!("Program {} invoke [1]", PUMP_AMM), BUY_LINE.to_string()];

    let events = parse_logs_with(&vec![Schema::of(EventKind::Buy), twin], &logs, PUMP_AMM);
    assert_eq!(events.len(), 2);
    assert_eq!(events[0].kind(), EventKind::Buy);
    assert_eq!(events[1].kind(), EventKind::Sell);
    assert_eq!(events[0].record(), events[1].record());

    let twin = Schema {
        kind: EventKind::Sell,
        discriminator: buy.discriminator.clone(),
        layout: Schema::of(EventKind::Sell).layout,
    };
    let events = parse_logs_with(&vec![twin, Schema::of(EventKind::Buy)], &logs, PUMP_AMM);
    assert_eq!(events.len(), 2);
    assert_eq!(events[0].kind(), EventKind::Sell);
    assert_eq!(events[1].kind(), EventKind::Buy);
}

#[test]
fn no_schema_no_event() {
    let logs = vec![format!("Program {} invoke [1]", PUMP_AMM), BUY_LINE.to_string()];
    assert!(parse_logs_with(&Vec::new(), &logs, PUMP_AMM).is_empty());
}

#[test]
fn scopes_mark_the_lines_of_the_target() {
    let logs = vec![
        "Program log: stray".to_string(),
        format!("Program {} invoke [1]", PUMP_AMM),
        "Program log: Instruction: Buy".to_string(),
        "Program TokenkegQfeZyiNwAJbNbGKPFXCWuBvf9Ss623VQ5DA invoke [2]".to_string(),
        "Program log: Instruction: Transfer".to_string(),
        "Program TokenkegQfeZyiNwAJbNbGKPFXCWuBvf9Ss623VQ5DA success".to_string(),
        "Program data: AAAA".to_string(),
        format!("Program {} success", PUMP_AMM),
        "Program log: late".to_string(),
    ];
    assert_eq!(
        scopes(&logs, PUMP_AMM),
        vec![false, false, true, true, false, false, true, true, false]
    );
    assert_eq!(scopes(&Vec::new(), PUMP_AMM), Vec::<bool>::new());
}
