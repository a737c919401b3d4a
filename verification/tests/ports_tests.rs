use pulsemon::collectors::ports::linux::{parse_hex_address, parse_tcp_state, LinuxPortScanner};
use pulsemon::collectors::ports::macos::{parse_addr_port, MacosPortScanner};
use pulsemon::collectors::ports::windows::{parse_address, parse_netstat_line, WindowsPortScanner};
use pulsemon::collectors::ports::{create_scanner, sort_port_rows, Platform, PortScanner};
use pulsemon::types::{PortInfo, PortSortBy};

fn row(protocol: &str, port: u16, pid: Option<u32>, state: &str) -> PortInfo {
    PortInfo {
        protocol: protocol.to_string(),
        local_addr: "0.0.0.0".to_string(),
        local_port: port,
        remote_addr: "*".to_string(),
        remote_port: 0,
        state: state.to_string(),
        pid,
        process_name: String::new(),
    }
}

#[test]
fn hex_addresses() {
    assert_eq!(parse_hex_address("0100007F:1F90"), ("127.0.0.1".to_string(), 8080));
    assert_eq!(parse_hex_address("00000000:0016"), ("0.0.0.0".to_string(), 22));
    assert_eq!(parse_hex_address("0101A8C0:01BB"), ("192.168.1.1".to_string(), 443));
    assert_eq!(parse_hex_address("00000000000000000000000001000000:0035"), ("::".to_string(), 53));
    assert_eq!(parse_hex_address("0100007F"), ("0.0.0.0".to_string(), 0));
    assert_eq!(parse_hex_address("a:b:c"), ("0.0.0.0".to_string(), 0));
    assert_eq!(parse_hex_address("ZZZZZZZZ:XYZ"), ("0.0.0.0".to_string(), 0));
    assert_eq!(parse_hex_address("0100007f:1f90"), ("127.0.0.1".to_string(), 8080));
}

#[test]
fn tcp_states() {
    let names = [
        ("01", "ESTABLISHED"),
        ("02", "SYN_SENT"),
        ("03", "SYN_RECV"),
        ("04", "FIN_WAIT1"),
        ("05", "FIN_WAIT2"),
        ("06", "TIME_WAIT"),
        ("07", "CLOSE"),
        ("08", "CLOSE_WAIT"),
        ("09", "LAST_ACK"),
        ("0A", "LISTEN"),
        ("0B", "CLOSING"),
        ("0a", "UNKNOWN"),
        ("", "UNKNOWN"),
    ];
    for (code, name) in names {
        assert_eq!(parse_tcp_state(code), name);
    }
}

#[test]
fn proc_net_table() {
    let content = "  sl  local_address rem_address   st tx_queue rx_queue tr tm->when retrnsmt   uid  timeout inode\n   0: 0100007F:1F90 00000000:0000 0A 00000000:00000000 00:00000000 00000000  1000        0 12345 1 0000000000000000 100 0 0 10 0\n   1: 0100007F:0277 0101A8C0:D431 01 00000000:00000000 00:00000000 00000000     0        0 0 1\nshort line\n";
    let scanner = LinuxPortScanner;
    let rows = scanner.parse_table(content, "TCP");
    assert_eq!(rows.len(), 2);
    assert_eq!(rows[0].protocol, "TCP");
    assert_eq!(rows[0].local_addr, "127.0.0.1");
    assert_eq!(rows[0].local_port, 8080);
    assert_eq!(rows[0].remote_addr, "0.0.0.0");
    assert_eq!(rows[0].state, "LISTEN");
    assert_eq!(rows[0].pid, None);
    assert_eq!(rows[1].local_port, 631);
    assert_eq!(rows[1].remote_addr, "192.168.1.1");
    assert_eq!(rows[1].remote_port, 54321);
    assert_eq!(rows[1].state, "ESTABLISHED");
    assert!(scanner.parse_table("header only", "UDP").is_empty());
    assert!(scanner.parse_table("", "UDP").is_empty());
}

#[test]
fn linux_tables_and_owners() {
    let scanner = LinuxPortScanner;
    let t = scanner.tables();
    assert_eq!(t.len(), 4);
    assert_eq!(t[0], ("/proc/net/tcp".to_string(), "TCP".to_string()));
    assert_eq!(t[3], ("/proc/net/udp6".to_string(), "UDP".to_string()));
    let mut rows = vec![row("TCP", 1, None, ""), row("TCP", 2, Some(9), ""), row("TCP", 3, None, ""), row("UDP", 4, None, "")];
    scanner.assign_owners(&mut rows, &vec![100, 200]);
    let pids: Vec<Option<u32>> = rows.iter().map(|r| r.pid).collect();
    assert_eq!(pids, vec![Some(100), Some(9), Some(200), None]);
    assert_eq!(scanner.entry_pid("1234"), Some(1234));
    assert_eq!(scanner.entry_pid("self"), None);
    assert!(scanner.is_socket_link("socket:[12345]"));
    assert!(!scanner.is_socket_link("pipe:[1]"));
    assert!(!scanner.is_socket_link("sock"));
}

#[test]
fn netstat_lines() {
    let p = parse_netstat_line("  TCP    0.0.0.0:135            0.0.0.0:0              LISTENING       1234").unwrap();
    assert_eq!(p.protocol, "TCP");
    assert_eq!(p.local_addr, "0.0.0.0");
    assert_eq!(p.local_port, 135);
    assert_eq!(p.remote_addr, "0.0.0.0");
    assert_eq!(p.remote_port, 0);
    assert_eq!(p.state, "LISTENING");
    assert_eq!(p.pid, Some(1234));
    let u = parse_netstat_line("  UDP    [::]:500               *:*                                    4321").unwrap();
    assert_eq!(u.local_addr, "[::]");
    assert_eq!(u.local_port, 500);
    assert_eq!(u.remote_addr, "*");
    assert_eq!(u.state, "");
    assert_eq!(u.pid, Some(4321));
    let u2 = parse_netstat_line("  UDP    0.0.0.0:5353    *:*    2222").unwrap();
    assert_eq!(u2.pid, Some(2222));
    let t = parse_netstat_line("  TCP    10.0.0.2:49152    bad    ESTABLISHED").unwrap();
    assert_eq!(t.remote_addr, "");
    assert_eq!(t.remote_port, 0);
    assert_eq!(t.pid, None);
    assert!(parse_netstat_line("Active Connections").is_none());
    assert!(parse_netstat_line("  Proto  Local Address          Foreign Address        State           PID").is_none());
    assert!(parse_netstat_line("  TCP    noport   0.0.0.0:0   LISTENING  1").is_none());
    assert_eq!(parse_address("1.2.3.4:80"), Some(("1.2.3.4".to_string(), 80)));
    assert_eq!(parse_address("1.2.3.4"), None);
    assert_eq!(parse_address("x:99999"), None);
}

#[test]
fn netstat_listing_skips_header() {
    let out = "\r\nActive Connections\r\n\r\n  Proto  Local Address          Foreign Address        State           PID\r\n  TCP    0.0.0.0:135            0.0.0.0:0              LISTENING       1234\r\n  UDP    0.0.0.0:53    *:*    77\r\n";
    let rows = WindowsPortScanner.parse_listing(out);
    assert_eq!(rows.len(), 2);
    assert_eq!(rows[0].pid, Some(1234));
    assert_eq!(rows[1].local_port, 53);
    assert_eq!(rows[1].pid, Some(77));
}

#[test]
fn lsof_listing() {
    let out = "COMMAND   PID USER   FD   TYPE DEVICE SIZE/OFF NODE NAME\n\
rapportd  512 me    4u  IPv4 0x1      0t0  TCP *:49152 (LISTEN)\n\
Chrome    900 me   30u  IPv4 0x2      0t0  TCP 192.168.1.5:50000->142.250.1.1:443 (ESTABLISHED)\n\
mDNS      77  me    5u  IPv6 0x3      0t0  UDP *:5353\n\
short line\n";
    let rows = MacosPortScanner.parse_listing(out);
    assert_eq!(rows.len(), 3);
    assert_eq!(rows[0].process_name, "rapportd");
    assert_eq!(rows[0].pid, Some(512));
    assert_eq!(rows[0].protocol, "TCP");
    assert_eq!(rows[0].local_addr, "*");
    assert_eq!(rows[0].local_port, 49152);
    assert_eq!(rows[0].remote_addr, "*");
    assert_eq!(rows[0].state, "LISTEN");
    assert_eq!(rows[1].local_addr, "192.168.1.5");
    assert_eq!(rows[1].local_port, 50000);
    assert_eq!(rows[1].remote_addr, "142.250.1.1");
    assert_eq!(rows[1].remote_port, 443);
    assert_eq!(rows[1].state, "ESTABLISHED");
    assert_eq!(rows[2].state, "");
    assert_eq!(parse_addr_port("[::1]:8080"), ("[::1]".to_string(), 8080));
    assert_eq!(parse_addr_port("host"), ("host".to_string(), 0));
    assert_eq!(parse_addr_port("host:http"), ("host".to_string(), 0));
}

#[test]
fn scanners_per_platform() {
    assert!(matches!(create_scanner(Platform::Linux), PortScanner::Linux(_)));
    assert!(matches!(create_scanner(Platform::Macos), PortScanner::Macos(_)));
    assert!(matches!(create_scanner(Platform::Windows), PortScanner::Windows(_)));
}

#[test]
fn port_sorting() {
    let rows = vec![row("UDP", 53, Some(5), "b"), row("TCP", 22, None, "a"), row("TCP", 80, Some(1), "b")];
    let by_pid = sort_port_rows(rows.clone(), PortSortBy::Pid, true);
    assert_eq!(by_pid.iter().map(|r| r.local_port).collect::<Vec<_>>(), vec![22, 80, 53]);
    let by_proto_desc = sort_port_rows(rows.clone(), PortSortBy::Protocol, false);
    assert_eq!(by_proto_desc.iter().map(|r| r.local_port).collect::<Vec<_>>(), vec![53, 22, 80]);
    let by_state = sort_port_rows(rows.clone(), PortSortBy::State, true);
    assert_eq!(by_state.iter().map(|r| r.local_port).collect::<Vec<_>>(), vec![22, 53, 80]);
    let by_state_desc = sort_port_rows(rows, PortSortBy::State, false);
    assert_eq!(by_state_desc.iter().map(|r| r.local_port).collect::<Vec<_>>(), vec![53, 80, 22]);
}

#[test]
fn owners_given_socket_by_socket() {
    // Plain loop: each socket's owner goes to the first row still without one.
    fn one_by_one(rows: &mut [PortInfo], owners: &[u32]) {
        for &pid in owners {
            for r in rows.iter_mut() {
                if r.pid.is_none() {
                    r.pid = Some(pid);
                    break;
                }
            }
        }
    }
    let base = vec![
        row("TCP", 1, Some(7), ""),
        row("TCP", 2, None, ""),
        row("TCP", 3, None, ""),
        row("UDP", 4, Some(8), ""),
        row("UDP", 5, None, ""),
    ];
    for owners in [vec![], vec![11], vec![11, 12], vec![11, 12, 13], vec![11, 12, 13, 14, 15]] {
        let mut a = base.clone();
        LinuxPortScanner.assign_owners(&mut a, &owners);
        let mut b = base.clone();
        one_by_one(&mut b, &owners);
        let pa: Vec<Option<u32>> = a.iter().map(|r| r.pid).collect();
        let pb: Vec<Option<u32>> = b.iter().map(|r| r.pid).collect();
        assert_eq!(pa, pb);
    }
}
