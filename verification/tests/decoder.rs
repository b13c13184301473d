use sensor_bridge::actions::{ActionRequest, RequestKind};
use sensor_bridge::decode::decode_request;

#[test]
fn decodes_action_with_pressure() {
    assert_eq!(
        decode_request("{\"action\":\"peakleft\",\"pressure\":600}"),
        Some(ActionRequest { kind: RequestKind::PeakLeft, pressure: 600 })
    );
}

#[test]
fn decodes_every_recognized_tag() {
    let cases = [
        ("peakleft", RequestKind::PeakLeft),
        ("peakright", RequestKind::PeakRight),
        ("peakshoot", RequestKind::PeakShoot),
        ("stop", RequestKind::Stop),
        ("stopmovement", RequestKind::StopMovement),
        ("stopshooting", RequestKind::StopShooting),
    ];
    for (tag, kind) in cases {
        let payload = format!("{{\"action\":\"{}\"}}", tag);
        assert_eq!(
            decode_request(&payload),
            Some(ActionRequest { kind, pressure: 0 })
        );
    }
}

#[test]
fn unknown_tag_decodes_as_other() {
    assert_eq!(
        decode_request("{\"action\":\"jump\",\"pressure\":10}"),
        Some(ActionRequest { kind: RequestKind::Other, pressure: 10 })
    );
}

#[test]
fn missing_pressure_reads_as_zero() {
    assert_eq!(
        decode_request("{\"action\":\"stop\"}"),
        Some(ActionRequest { kind: RequestKind::Stop, pressure: 0 })
    );
}

#[test]
fn tolerates_whitespace_and_member_order() {
    assert_eq!(
        decode_request("  { \"pressure\" : 42 ,\t\"action\" : \"peakright\" }\n"),
        Some(ActionRequest { kind: RequestKind::PeakRight, pressure: 42 })
    );
}

#[test]
fn ignores_unrecognized_members() {
    assert_eq!(
        decode_request(
            "{\"device\":\"pad-3\",\"action\":\"peakshoot\",\"ok\":true,\"x\":null,\"pressure\":9}"
        ),
        Some(ActionRequest { kind: RequestKind::PeakShoot, pressure: 9 })
    );
}

#[test]
fn fractional_pressure_keeps_integer_part() {
    assert_eq!(
        decode_request("{\"action\":\"peakleft\",\"pressure\":600.75}"),
        Some(ActionRequest { kind: RequestKind::PeakLeft, pressure: 600 })
    );
}

#[test]
fn negative_pressure_reads_as_zero() {
    assert_eq!(
        decode_request("{\"action\":\"peakleft\",\"pressure\":-5}"),
        Some(ActionRequest { kind: RequestKind::PeakLeft, pressure: 0 })
    );
}

#[test]
fn huge_pressure_saturates() {
    assert_eq!(
        decode_request("{\"action\":\"peakleft\",\"pressure\":99999999999999999999999999}"),
        Some(ActionRequest { kind: RequestKind::PeakLeft, pressure: u64::MAX })
    );
}

#[test]
fn escaped_quote_stays_inside_a_string() {
    assert_eq!(
        decode_request("{\"note\":\"say \\\"hi\\\"\",\"action\":\"stop\"}"),
        Some(ActionRequest { kind: RequestKind::Stop, pressure: 0 })
    );
}

#[test]
fn missing_action_is_malformed() {
    assert_eq!(decode_request("{\"pressure\":600}"), None);
    assert_eq!(decode_request("{}"), None);
}

#[test]
fn malformed_payloads_are_discarded() {
    assert_eq!(decode_request(""), None);
    assert_eq!(decode_request("peakleft"), None);
    assert_eq!(decode_request("\"action\""), None);
    assert_eq!(decode_request("{\"action\":\"stop\""), None);
    assert_eq!(decode_request("{\"action\":\"stop\",}"), None);
    assert_eq!(decode_request("{\"action\" \"stop\"}"), None);
    assert_eq!(decode_request("{\"action\":\"stop\"} trailing"), None);
    assert_eq!(decode_request("{\"action\":\"unterminated"), None);
    assert_eq!(decode_request("{\"pressure\":,\"action\":\"stop\"}"), None);
    assert_eq!(decode_request("{\"pressure\":1.,\"action\":\"stop\"}"), None);
    assert_eq!(decode_request("{\"pressure\":1e,\"action\":\"stop\"}"), None);
}

#[test]
fn wrongly_typed_fields_are_malformed() {
    assert_eq!(decode_request("{\"action\":12}"), None);
    assert_eq!(decode_request("{\"action\":true}"), None);
    assert_eq!(decode_request("{\"action\":\"stop\",\"pressure\":\"high\"}"), None);
}

#[test]
fn repeated_action_or_pressure_is_malformed() {
    assert_eq!(
        decode_request("{\"action\":\"stop\",\"action\":\"peakleft\"}"),
        None
    );
    assert_eq!(
        decode_request("{\"action\":\"stop\",\"pressure\":1,\"pressure\":2}"),
        None
    );
}

#[test]
fn exponent_numbers_are_well_formed_but_read_by_integer_digits() {
    assert_eq!(
        decode_request("{\"action\":\"peakleft\",\"pressure\":6e2}"),
        Some(ActionRequest { kind: RequestKind::PeakLeft, pressure: 6 })
    );
}
