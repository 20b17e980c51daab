use portkill::listing::list_all_ports_from_output;
use portkill::listing::list_ports_from_output;
use portkill::listing::list_ports;
use portkill::listing::PortScan;

const HEADER: &str = "COMMAND PID USER FD TYPE DEVICE SIZE/OFF NODE NAME";

#[test]
fn listing_line_yields_one_record() {
    let out = format!("{}\nsshd 1234 root 3u IPv4 0x0 0t0 TCP *:22 (LISTEN)\n", HEADER);
    let infos = list_ports_from_output(22, &out, true);
    assert_eq!(infos.len(), 1);
    let p = &infos[0];
    assert_eq!(p.port, 22);
    assert_eq!(p.protocol, "tcp");
    assert_eq!(p.pid, 1234);
    assert_eq!(p.user, "root");
    assert_eq!(p.remarks, "LISTENING");
}

#[test]
fn malformed_lines_are_skipped_and_later_lines_still_parse() {
    let out = format!(
        "{}\ntoo few fields here\nsshd notapid root 3u IPv4 0x0 0t0 TCP *:22 (LISTEN)\nsshd 1234 root 3u IPv4 0x0 0t0 TCP *:22 (LISTEN)\n",
        HEADER
    );
    let infos = list_ports_from_output(22, &out, true);
    assert_eq!(infos.len(), 1);
    assert_eq!(infos[0].pid, 1234);
}

#[test]
fn listening_filter_excludes_connected_sockets() {
    let out = format!(
        "{}\nssh 40 bob 3u IPv4 0x0 0t0 TCP 10.0.0.1:22->10.0.0.2:50000 (ESTABLISHED)\nmdns 41 bob 4u IPv4 0x0 0t0 X UDP *:5353\nsshd 42 root 3u IPv4 0x0 0t0 TCP *:22 (LISTEN)\n",
        HEADER
    );
    let strict = list_ports_from_output(22, &out, true);
    assert_eq!(strict.len(), 1);
    assert_eq!(strict[0].pid, 42);
    for p in &strict {
        assert_eq!(p.remarks, "LISTENING");
    }
    let lax = list_ports_from_output(22, &out, false);
    assert_eq!(lax.len(), 3);
    assert_eq!(lax[0].remarks, "CONNECTED");
    assert_eq!(lax[0].protocol, "tcp");
    assert_eq!(lax[1].remarks, "CONNECTED");
    assert_eq!(lax[1].protocol, "udp");
    assert_eq!(lax[2].remarks, "LISTENING");
    assert_eq!(lax[2].protocol, "tcp");
}

#[test]
fn empty_and_header_only_outputs_yield_nothing() {
    assert_eq!(list_ports_from_output(80, "", true).len(), 0);
    assert_eq!(list_ports_from_output(80, HEADER, true).len(), 0);
    assert_eq!(list_ports_from_output(80, &format!("{}\n", HEADER), false).len(), 0);
    assert_eq!(list_all_ports_from_output("").len(), 0);
    assert_eq!(list_all_ports_from_output(HEADER).len(), 0);
}

#[test]
fn all_ports_reads_the_port_from_the_descriptor() {
    let out = format!(
        "{}\nsshd 1234 root 3u IPv4 0x0 0t0 TCP *:22 (LISTEN)\nmdns 41 bob 4u IPv4 0x0 0t0 X UDP 1.2.3.4:5353\nssh 40 bob 3u IPv4 0x0 0t0 TCP 10.0.0.1:22->10.0.0.2:50000 (ESTABLISHED)\n",
        HEADER
    );
    let infos = list_all_ports_from_output(&out);
    assert_eq!(infos.len(), 3);
    assert_eq!(infos[0].port, 22);
    assert_eq!(infos[0].protocol, "tcp");
    assert_eq!(infos[0].remarks, "LISTENING");
    assert_eq!(infos[1].port, 5353);
    assert_eq!(infos[1].protocol, "udp");
    assert_eq!(infos[1].remarks, "CONNECTED");
    assert_eq!(infos[2].port, 50000);
    assert_eq!(infos[2].protocol, "tcp");
    assert_eq!(infos[2].remarks, "CONNECTED");
}

#[test]
fn all_ports_skips_lines_without_a_parseable_port() {
    let out = format!(
        "{}\nweird 50 bob 3u IPv4 0x0 0t0 TCP *:abc (LISTEN)\nweird 51 bob 3u IPv4 0x0 0t0 TCP nocolonhere (LISTEN)\nsshd 52 root 3u IPv4 0x0 0t0 TCP *:80 (LISTEN)\n",
        HEADER
    );
    let infos = list_all_ports_from_output(&out);
    assert_eq!(infos.len(), 1);
    assert_eq!(infos[0].port, 80);
    assert_eq!(infos[0].pid, 52);
}

#[test]
fn all_ports_port_overflow_is_a_skip() {
    let out = format!("{}\nbig 53 bob 3u IPv4 0x0 0t0 TCP *:65536 (LISTEN)\n", HEADER);
    assert_eq!(list_all_ports_from_output(&out).len(), 0);
    let ok = format!("{}\nbig 53 bob 3u IPv4 0x0 0t0 TCP *:65535 (LISTEN)\n", HEADER);
    let infos = list_all_ports_from_output(&ok);
    assert_eq!(infos.len(), 1);
    assert_eq!(infos[0].port, 65535);
}

#[test]
fn multi_port_listing_concatenates_in_request_order() {
    let scans = vec![
        PortScan {
            port: 22,
            output: format!("{}\nsshd 60 root 3u IPv4 0x0 0t0 TCP *:22 (LISTEN)\n", HEADER),
        },
        PortScan { port: 23, output: String::new() },
        PortScan {
            port: 80,
            output: format!("{}\nnginx 61 www 3u IPv4 0x0 0t0 TCP *:80 (LISTEN)\n", HEADER),
        },
    ];
    let infos = list_ports(&scans, true);
    assert_eq!(infos.len(), 2);
    assert_eq!(infos[0].port, 22);
    assert_eq!(infos[0].pid, 60);
    assert_eq!(infos[1].port, 80);
    assert_eq!(infos[1].pid, 61);
    for p in &infos {
        assert_eq!(p.remarks, "LISTENING");
    }
}

#[test]
fn protocol_is_derived_from_the_descriptor_alone() {
    // The protocol column (field 7) is not part of the descriptor
    // (fields 8 onward), so a line whose descriptor never mentions UDP
    // falls back to tcp even when the column says UDP.
    let out = format!("{}\nmdns 41 bob 4u IPv4 0x0 0t0 UDP *:5353\n", HEADER);
    let infos = list_ports_from_output(5353, &out, false);
    assert_eq!(infos.len(), 1);
    assert_eq!(infos[0].protocol, "tcp");
    assert_eq!(infos[0].remarks, "CONNECTED");
}

#[test]
fn descriptor_join_collapses_column_padding() {
    let out = format!(
        "{}\nsshd   1234   root   3u   IPv4   0x0   0t0   TCP   *:22   (LISTEN)\n",
        HEADER
    );
    let infos = list_ports_from_output(22, &out, true);
    assert_eq!(infos.len(), 1);
    assert_eq!(infos[0].remarks, "LISTENING");
}
