use bats_pitch::{
    from_base36, from_decimal, AddOrderMsg, BATSMessage, BATSMsgFactory, MessageKind,
    OrderCancelMsg, ParseError, TradeBreakMsg, TradeMsg,
};

fn parse_ok(msg: &str) -> BATSMessage {
    match BATSMsgFactory::parse(msg) {
        Ok(m) => m,
        Err(e) => panic!("{} did not decode: {:?}", msg, e),
    }
}

#[test]
fn order_cancel_scenario() {
    let m = parse_ok("00034500X0000000000A1000100").into_order_cancel_msg().unwrap();
    assert_eq!(m.timestamp, 34500);
    assert_eq!(m.msg_type, 'X');
    assert_eq!(m.order_id, 361);
    assert_eq!(m.shares, 100);
}

#[test]
fn trade_break_scenario() {
    let m = parse_ok("00050000B0000000000B2").into_trade_break_msg().unwrap();
    assert_eq!(m.timestamp, 50000);
    assert_eq!(m.msg_type, 'B');
    assert_eq!(m.exec_id, 398);
}

#[test]
fn unknown_code_is_an_error() {
    let r = BATSMsgFactory::parse("00050000Z0000000000B2");
    assert_eq!(r.unwrap_err(), ParseError::UnknownMessageType);
    let r = BATSMsgFactory::parse("00050000z");
    assert_eq!(r.unwrap_err(), ParseError::UnknownMessageType);
}

#[test]
fn trade_symbol_width_follows_code() {
    let short = parse_ok("00001000P00000000000ZB000050ABCDEF0000012345000000000010")
        .into_trade_msg()
        .unwrap();
    let long = parse_ok("00001000r00000000000ZB000050ABCDEFGH0000012345000000000010")
        .into_trade_msg()
        .unwrap();
    for (m, code, symbol) in [(&short, 'P', "ABCDEF"), (&long, 'r', "ABCDEFGH")] {
        assert_eq!(m.timestamp, 1000);
        assert_eq!(m.msg_type, code);
        assert_eq!(m.order_id, 35);
        assert_eq!(m.side, 'B');
        assert_eq!(m.shares, 50);
        assert_eq!(m.symbol, symbol);
        assert_eq!(m.price, 12345);
        assert_eq!(m.exec_id, 36);
    }
}

#[test]
fn add_order_fields() {
    let msg = "28800011A1K27GA00000YS000100AAPL  0001827500Y";
    assert_eq!(msg.len(), 45);
    let m = parse_ok(msg).into_add_order_msg().unwrap();
    assert_eq!(m.timestamp, 28800011);
    assert_eq!(m.msg_type, 'A');
    assert_eq!(m.order_id, 204969015920664610);
    assert_eq!(m.side, 'S');
    assert_eq!(m.shares, 100);
    assert_eq!(m.symbol, "AAPL  ");
    assert_eq!(m.price, 1827500);
    assert_eq!(m.display, 'Y');
    assert_eq!(m.part_id, "");
}

#[test]
fn add_order_long_form_with_part_id() {
    let m = parse_ok("28800011d1K27GA00000YB000100AAPL  0001827500NPRT1")
        .into_add_order_msg()
        .unwrap();
    assert_eq!(m.msg_type, 'd');
    assert_eq!(m.side, 'B');
    assert_eq!(m.display, 'N');
    assert_eq!(m.part_id, "PRT1");
}

#[test]
fn add_order_other_trailing_lengths_rejected() {
    let base = "28800011A1K27GA00000YS000100AAPL  0001827500Y";
    for extra in ["P", "PR", "PRT"] {
        let r = BATSMsgFactory::parse(&format!("{}{}", base, extra));
        assert_eq!(r.unwrap_err(), ParseError::IncompleteMessage);
    }
    let r = BATSMsgFactory::parse(&format!("{}{}", base, "PRT12"));
    assert_eq!(r.unwrap_err(), ParseError::MalformedField);
}

#[test]
fn auction_summary_fields() {
    let m = parse_ok("28800168JAAPL    C00012345000000012345")
        .into_auction_summary_msg()
        .unwrap();
    assert_eq!(m.timestamp, 28800168);
    assert_eq!(m.msg_type, 'J');
    assert_eq!(m.symbol, "AAPL    ");
    assert_eq!(m.auction_type, 'C');
    assert_eq!(m.price, 1234500);
    assert_eq!(m.shares, 12345);
}

#[test]
fn auction_summary_share_overflow() {
    let r = BATSMsgFactory::parse("28800168JAAPL    C00012345009999999999");
    assert_eq!(r.unwrap_err(), ParseError::MalformedField);
    let m = parse_ok("28800168JAAPL    C99999999994294967295")
        .into_auction_summary_msg()
        .unwrap();
    assert_eq!(m.price, 9999999999);
    assert_eq!(m.shares, u32::MAX);
    let r = BATSMsgFactory::parse("28800168JAAPL    C99999999994294967296");
    assert_eq!(r.unwrap_err(), ParseError::MalformedField);
}

#[test]
fn auction_update_fields() {
    let m = parse_ok("28800168IAAPL    C00012345000000001000000000200000012346000001234700")
        .into_auction_update_msg()
        .unwrap();
    assert_eq!(m.msg_type, 'I');
    assert_eq!(m.symbol, "AAPL    ");
    assert_eq!(m.auction_type, 'C');
    assert_eq!(m.reference_price, 1234500);
    assert_eq!(m.buyshares, 1000);
    assert_eq!(m.sellshares, 2000);
    assert_eq!(m.indicative_price, 1234600);
    assert_eq!(m.auction_only_price, 1234700);
}

#[test]
fn auction_update_bad_auction_type() {
    let r = BATSMsgFactory::parse("28800168IAAPL    X00012345000000001000000000200000012346000001234700");
    assert_eq!(r.unwrap_err(), ParseError::MalformedField);
}

#[test]
fn order_executed_fields() {
    let m = parse_ok("28800168E1K27GA00000Y0000501K27GA00000Z")
        .into_order_executed_msg()
        .unwrap();
    assert_eq!(m.timestamp, 28800168);
    assert_eq!(m.msg_type, 'E');
    assert_eq!(m.order_id, 204969015920664610);
    assert_eq!(m.shares, 50);
    assert_eq!(m.exec_id, 204969015920664611);
}

#[test]
fn retail_price_improve_fields() {
    let m = parse_ok("28800168RAAPL    S")
        .into_retail_price_improve_msg()
        .unwrap();
    assert_eq!(m.msg_type, 'R');
    assert_eq!(m.symbol, "AAPL    ");
    assert_eq!(m.retail_price_improve, 'S');
    let r = BATSMsgFactory::parse("28800168RAAPL    Q");
    assert_eq!(r.unwrap_err(), ParseError::MalformedField);
}

#[test]
fn trading_status_fields() {
    let m = parse_ok("28800168HAAPL    T1XY").into_trading_status_msg().unwrap();
    assert_eq!(m.msg_type, 'H');
    assert_eq!(m.symbol, "AAPL    ");
    assert_eq!(m.halt_status, 'T');
    assert_eq!(m.reg_sho_action, 1);
    assert_eq!(m.reserved1, 'X');
    assert_eq!(m.reserved2, 'Y');
    let r = BATSMsgFactory::parse("28800168HAAPL    A1XY");
    assert_eq!(r.unwrap_err(), ParseError::MalformedField);
}

#[test]
fn trade_bad_side() {
    let r = BATSMsgFactory::parse("00001000P00000000000ZX000050ABCDEF0000012345000000000010");
    assert_eq!(r.unwrap_err(), ParseError::MalformedField);
}

#[test]
fn truncated_records_are_incomplete() {
    let full = "00001000r00000000000ZB000050ABCDEFGH0000012345000000000010";
    for cut in 0..full.len() {
        let r = BATSMsgFactory::parse(&full[..cut]);
        assert_eq!(r.unwrap_err(), ParseError::IncompleteMessage, "cut at {}", cut);
    }
    let full = "28800011A1K27GA00000YS000100AAPL  0001827500Y";
    for cut in 0..full.len() {
        let r = BATSMsgFactory::parse(&full[..cut]);
        assert_eq!(r.unwrap_err(), ParseError::IncompleteMessage, "cut at {}", cut);
    }
}

#[test]
fn malformed_fields_are_reported() {
    assert_eq!(
        BATSMsgFactory::parse("0003450aX0000000000A1000100").unwrap_err(),
        ParseError::MalformedField
    );
    assert_eq!(
        BATSMsgFactory::parse("00034500X0000000000a1000100").unwrap_err(),
        ParseError::MalformedField
    );
    assert_eq!(
        BATSMsgFactory::parse("00034500X0000000000A1+00100").unwrap_err(),
        ParseError::MalformedField
    );
    assert_eq!(
        BATSMsgFactory::parse("0003450aX0000").unwrap_err(),
        ParseError::MalformedField
    );
}

#[test]
fn parse_msg_checks_type_code() {
    let r = OrderCancelMsg::parse_msg("00050000B0000000000B2");
    assert_eq!(r.unwrap_err(), ParseError::MalformedField);
    let m = TradeBreakMsg::parse_msg("00050000B0000000000B2").unwrap();
    assert_eq!(m.exec_id, 398);
    let r = AddOrderMsg::parse_msg("0005");
    assert_eq!(r.unwrap_err(), ParseError::IncompleteMessage);
    let r = TradeMsg::parse_msg("00050000");
    assert_eq!(r.unwrap_err(), ParseError::IncompleteMessage);
}

#[test]
fn trailing_characters_after_fixed_records() {
    let m = parse_ok("00050000B0000000000B2XYZ").into_trade_break_msg().unwrap();
    assert_eq!(m.exec_id, 398);
}

#[test]
fn narrowing_gives_only_the_held_kind() {
    let m = parse_ok("00034500X0000000000A1000100");
    assert_eq!(m.kind(), MessageKind::OrderCancel);
    assert!(m.into_trade_msg().is_none());
    let m = parse_ok("00034500X0000000000A1000100");
    assert!(m.into_order_cancel_msg().is_some());
}

#[test]
fn base36_and_decimal_fields() {
    assert_eq!(from_base36("0000000000B2"), Some(398));
    assert_eq!(from_base36("ZZZZZZZZZZZZ"), Some(4738381338321616895));
    assert_eq!(from_base36("00000000000b"), None);
    assert_eq!(from_base36("ZZZZZZZZZZZZZ"), None);
    assert_eq!(from_decimal("000100", u32::MAX as u64), Some(100));
    assert_eq!(from_decimal("4294967296", u32::MAX as u64), None);
    assert_eq!(from_decimal("12A", u64::MAX), None);
    assert_eq!(from_decimal("", u64::MAX), Some(0));
}

#[test]
fn records_decode_independently() {
    assert!(BATSMsgFactory::parse("00034500X0000000000A10001").is_err());
    let m = parse_ok("00034500X0000000000A1000100").into_order_cancel_msg().unwrap();
    assert_eq!(m.order_id, 361);
}
