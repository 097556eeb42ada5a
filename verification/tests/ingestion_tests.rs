use argus::ingestion::{hash_str, GraphEvent, IngestionPipeline, Pacs008, ParseProgress, Tag};
use argus::xml::XmlEvent;

// The value of an instructed amount; text that is not a number counts as zero.
fn amount_value(text: &str) -> f64 {
    text.parse::<f64>().unwrap_or(0.0)
}

#[test]
fn test_valid_pacs008_parsing() {
    let raw_xml = r#"
            <Document>
                <FIToFICstmrCdtTrf>
                    <GrpHdr>
                        <MsgId>TRX-987654321</MsgId>
                    </GrpHdr>
                    <CdtTrfTxInf>
                        <InstgAgt>
                            <FinInstnId>BANKUS33XXX</FinInstnId>
                        </InstgAgt>
                        <InstdAgt>
                            <FinInstnId>BANKGB22XXX</FinInstnId>
                        </InstdAgt>
                        <InstdAmt Ccy="USD">150000.50</InstdAmt>
                    </CdtTrfTxInf>
                </FIToFICstmrCdtTrf>
            </Document>
        "#;

    let result = Pacs008::parse(raw_xml).unwrap();

    assert_eq!(result.msg_id, "TRX-987654321");
    assert_eq!(result.instg_agt, "BANKUS33XXX");
    assert_eq!(result.instd_agt, "BANKGB22XXX");
    assert_eq!(amount_value(result.tx_amount), 150000.50);
}

#[test]
fn test_missing_tags_xml() {
    let raw_xml = "<Document><UnknownTag></UnknownTag></Document>";
    let result = Pacs008::parse(raw_xml).unwrap();

    assert_eq!(result.msg_id, "");
    assert_eq!(amount_value(result.tx_amount), 0.0);
}

#[test]
fn test_malformed_xml() {
    let raw_xml = "<Document><InvalidTag></Document>";
    let result = Pacs008::parse(raw_xml);

    assert!(result.is_err());
}

#[test]
fn test_into_graph_event() {
    let raw_xml = "<Document><FIToFICstmrCdtTrf><GrpHdr><MsgId>T1</MsgId></GrpHdr><CdtTrfTxInf><InstgAgt><FinInstnId>A</FinInstnId></InstgAgt><InstdAgt><FinInstnId>B</FinInstnId></InstdAgt><InstdAmt Ccy=\"USD\">10.0</InstdAmt></CdtTrfTxInf></FIToFICstmrCdtTrf></Document>";
    let parsed = Pacs008::parse(raw_xml).unwrap();
    let event = parsed.into_graph_event(amount_value(parsed.tx_amount).to_bits());

    assert_eq!(event.msg_id, hash_str("T1"));
    assert_eq!(event.src_node, hash_str("A"));
    assert_eq!(event.dst_node, hash_str("B"));
    assert_eq!(f64::from_bits(event.amount), 10.0);
}

#[test]
fn malformed_xml_reports_the_fatal_error_text() {
    assert_eq!(Pacs008::parse("<a></b>"), Err("Fatal XML parsing error"));
}

#[test]
fn empty_document_parses_to_empty_fields() {
    let p = Pacs008::parse("").unwrap();
    assert_eq!(p, Pacs008 { msg_id: "", instg_agt: "", instd_agt: "", tx_amount: "" });
}

#[test]
fn later_agents_overwrite_the_instructed_agent() {
    let xml = "<d><FinInstnId>A</FinInstnId><FinInstnId>B</FinInstnId><FinInstnId>C</FinInstnId></d>";
    let p = Pacs008::parse(xml).unwrap();
    assert_eq!(p.instg_agt, "A");
    assert_eq!(p.instd_agt, "C");
}

#[test]
fn repeated_tag_keeps_last_text() {
    let xml = "<d><MsgId>first</MsgId><MsgId>second</MsgId></d>";
    assert_eq!(Pacs008::parse(xml).unwrap().msg_id, "second");
}

#[test]
fn text_is_trimmed_and_read_for_the_last_open_tag() {
    // the tag stays selected after its end tag, so trailing text counts too
    let xml = "<d><MsgId>  M1  </MsgId> tail </d>";
    assert_eq!(Pacs008::parse(xml).unwrap().msg_id, "tail");
}

#[test]
fn unknown_tag_text_is_ignored() {
    let xml = "<d><MsgId>M</MsgId><Other>x</Other></d>";
    assert_eq!(Pacs008::parse(xml).unwrap().msg_id, "M");
}

#[test]
fn hash_str_is_deterministic_and_separates() {
    assert_eq!(hash_str("BANK_A"), hash_str("BANK_A"));
    assert_ne!(hash_str("BANK_A"), hash_str("BANK_B"));
}

#[test]
fn into_graph_event_keeps_amount_bits() {
    let p = Pacs008 { msg_id: "m", instg_agt: "x", instd_agt: "y", tx_amount: "1" };
    let ev = p.into_graph_event(12345);
    assert_eq!(ev.amount, 12345);
    assert_ne!(ev.src_node, ev.dst_node);
}

#[test]
fn pipeline_hands_back_events_when_full() {
    let pipeline = IngestionPipeline::new(1);
    let ev = GraphEvent { msg_id: 1, src_node: 2, dst_node: 3, amount: 4 };
    let other = GraphEvent { msg_id: 5, src_node: 6, dst_node: 7, amount: 8 };
    assert_eq!(pipeline.push_event(ev), Ok(()));
    assert_eq!(pipeline.push_event(other), Err(other));
    assert_eq!(pipeline.pop_event(), Some(ev));
    assert_eq!(pipeline.pop_event(), None);
}

#[test]
fn pipeline_is_first_in_first_out() {
    let pipeline = IngestionPipeline::new(100);
    for i in 0..10u64 {
        let ev = GraphEvent { msg_id: i, src_node: i, dst_node: i, amount: i };
        assert!(pipeline.push_event(ev).is_ok());
    }
    for i in 0..10u64 {
        assert_eq!(pipeline.pop_event().map(|e| e.msg_id), Some(i));
    }
    assert_eq!(pipeline.queue.capacity(), 100);
}

#[test]
fn step_selects_known_tags() {
    let mut p = ParseProgress::new();
    assert_eq!(p.tag, Tag::Other);
    p.step(XmlEvent::Start(b"InstdAmt".to_vec()));
    assert_eq!(p.tag, Tag::InstdAmt);
    p.step(XmlEvent::Start(b"FinInstnId".to_vec()));
    assert_eq!(p.tag, Tag::FinInstnId);
    p.step(XmlEvent::Start(b"MsgId".to_vec()));
    assert_eq!(p.tag, Tag::MsgId);
    p.step(XmlEvent::Start(b"MsgIdX".to_vec()));
    assert_eq!(p.tag, Tag::Other);
    p.step(XmlEvent::Start(b"msgid".to_vec()));
    assert_eq!(p.tag, Tag::Other);
}

#[test]
fn step_stores_text_of_the_selected_tag() {
    let mut p = ParseProgress::new();
    p.step(XmlEvent::Text(Some(b"ignored")));
    assert_eq!(p.parsed, Pacs008::default());
    p.step(XmlEvent::Start(b"FinInstnId".to_vec()));
    p.step(XmlEvent::Text(Some(b"A")));
    p.step(XmlEvent::Text(Some(b"B")));
    p.step(XmlEvent::Text(Some(b"C")));
    assert_eq!(p.parsed.instg_agt, "A");
    assert_eq!(p.parsed.instd_agt, "C");
    assert_eq!(p.agents, 1);
    p.step(XmlEvent::Start(b"InstdAmt".to_vec()));
    p.step(XmlEvent::Text(Some(b"12.5")));
    assert_eq!(p.parsed.tx_amount, "12.5");
}

#[test]
fn step_skips_invalid_utf8_and_copied_text() {
    let mut p = ParseProgress::new();
    p.step(XmlEvent::Start(b"MsgId".to_vec()));
    p.step(XmlEvent::Text(Some(&[0xff, 0xfe])));
    p.step(XmlEvent::Text(None));
    p.step(XmlEvent::Other);
    assert_eq!(p.parsed.msg_id, "");
    assert_eq!(p.tag, Tag::MsgId);
}
