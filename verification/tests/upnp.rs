//! UPnP renderers.

use fin::upnp::{find_service_control, header, header_bytes, parse_hms, tag_text};

#[test]
fn parses_ssdp_header() {
    let sample = "HTTP/1.1 200 OK\r\nCACHE-CONTROL: max-age=1800\r\nLOCATION: http://192.168.1.10:8080/desc.xml\r\nST: urn:schemas-upnp-org:device:MediaRenderer:1\r\n\r\n";
    assert_eq!(
        header(sample, "location").as_deref(),
        Some("http://192.168.1.10:8080/desc.xml")
    );
}

#[test]
fn parses_tag_with_namespace() {
    let xml = "<root><a:friendlyName>Living Room</a:friendlyName></root>";
    assert_eq!(
        tag_text(xml, "friendlyName").as_deref(),
        Some("Living Room")
    );
}

#[test]
fn finds_service_control_url() {
    let xml = "<root><serviceList>\
<service><serviceType>urn:schemas-upnp-org:service:AVTransport:1</serviceType>\
<controlURL>/AVTransport/ctl</controlURL></service>\
<service><serviceType>urn:schemas-upnp-org:service:RenderingControl:1</serviceType>\
<controlURL>/RC/ctl</controlURL></service>\
</serviceList></root>";
    let base = "http://10.0.0.5:8200/desc.xml";
    assert_eq!(
        find_service_control(xml, "AVTransport", base).as_deref(),
        Some("http://10.0.0.5:8200/AVTransport/ctl")
    );
    assert_eq!(
        find_service_control(xml, "RenderingControl", base).as_deref(),
        Some("http://10.0.0.5:8200/RC/ctl")
    );
}

#[test]
fn parses_hms() {
    assert_eq!(parse_hms("0:01:30"), Some(90_000_000));
    assert_eq!(parse_hms("1:00:00"), Some(3_600_000_000));
    assert_eq!(parse_hms("NOT_IMPLEMENTED"), None);
    assert_eq!(parse_hms(""), None);
}

#[test]
fn a_header_is_read_from_a_packet() {
    let packet = b"HTTP/1.1 200 OK\r\nlocation:  http://h/\xff.xml \r\nST: x\r\n\r\n";
    assert_eq!(header_bytes(packet, "LOCATION").as_deref(), Some("http://h/\u{fffd}.xml"));
    assert_eq!(header_bytes(packet, "USN"), None);
    assert_eq!(header_bytes(b"", "LOCATION"), None);
}
