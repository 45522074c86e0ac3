use serverscope::parse::{
    cpu_tokens, network_totals, parse_connections, parse_disk, parse_load, parse_memory,
    parse_network_totals, text_lines, trimmed_string, NetworkConnection,
};

const FREE: &str = "               total        used        free      shared  buff/cache   available
Mem:           15986        2345        9000         123        4640       13300
Swap:           2047           0        2047
";

const DF: &str = "Filesystem      Size  Used Avail Use% Mounted on
/dev/sda1        50G   12G   36G  25% /
";

const NET_DEV: &str = "Inter-|   Receive                                                |  Transmit
 face |bytes    packets errs drop fifo frame compressed multicast|bytes    packets errs drop fifo colls carrier compressed
    lo: 9999999    1000    0    0    0     0          0         0  9999999    1000    0    0    0     0       0          0
  eth0: 1048576    2000    0    0    0     0          0         0   524288    1500    0    0    0     0       0          0
 wlan0:    1024      10    0    0    0     0          0         0     2048      20    0    0    0     0       0          0
";

const SS: &str = "Netid State  Recv-Q Send-Q Local Address:Port Peer Address:Port Process
tcp   LISTEN 0      128    0.0.0.0:22         0.0.0.0:*     users:((\"sshd\",pid=1,fd=3))
udp   UNCONN 0      0      127.0.0.1:323      0.0.0.0:*
short line
";

#[test]
fn parse_memory_reads_mem_line() {
    assert_eq!(parse_memory(FREE), (2345, 15986));
}

#[test]
fn parse_memory_without_mem_line_is_zero() {
    assert_eq!(parse_memory(""), (0, 0));
    assert_eq!(parse_memory("Swap: 1 2\n"), (0, 0));
    assert_eq!(parse_memory("Mem: 5\n"), (0, 0));
}

#[test]
fn parse_memory_bad_numbers_read_as_zero() {
    assert_eq!(parse_memory("Mem: lots some\n"), (0, 0));
    assert_eq!(parse_memory("Mem: 100 x\nMem: 7 8\n"), (0, 100));
}

#[test]
fn parse_disk_reads_second_line() {
    assert_eq!(parse_disk(DF), ("12G".to_string(), "50G".to_string()));
}

#[test]
fn parse_disk_unknown_without_data() {
    assert_eq!(parse_disk(""), ("unknown".to_string(), "unknown".to_string()));
    assert_eq!(parse_disk("header\n/dev/sda1 50G\n"), ("unknown".to_string(), "unknown".to_string()));
}

#[test]
fn parse_load_takes_three_fields() {
    assert_eq!(parse_load("0.52 0.58 0.59 1/189 12345\n"), "0.52 / 0.58 / 0.59");
    assert_eq!(parse_load("1.00 2.00"), "1.00 / 2.00");
    assert_eq!(parse_load("3.5"), "3.5");
    assert_eq!(parse_load("   \n"), "unknown");
    assert_eq!(parse_load(""), "unknown");
}

#[test]
fn network_totals_skip_loopback_and_headers() {
    assert_eq!(network_totals(NET_DEV), Some((1048576 + 1024, 524288 + 2048)));
    assert_eq!(parse_network_totals(NET_DEV), ("1.0 MB".to_string(), "514.0 KB".to_string()));
}

#[test]
fn network_totals_of_nothing_are_zero() {
    assert_eq!(network_totals(""), Some((0, 0)));
    assert_eq!(parse_network_totals(""), ("0 B".to_string(), "0 B".to_string()));
}

#[test]
fn network_totals_need_sixteen_fields() {
    let text = "h1\nh2\neth0: 1 2 3\n";
    assert_eq!(network_totals(text), Some((0, 0)));
}

#[test]
fn network_totals_overflow_is_none() {
    let line = " eth0: 18446744073709551615 0 0 0 0 0 0 0 1 0 0 0 0 0 0 0\n";
    let text = format!("h1\nh2\n{line}{line}");
    assert_eq!(network_totals(&text), None);
}

#[test]
fn parse_connections_reads_rows() {
    let conns = parse_connections(SS);
    assert_eq!(conns.len(), 2);
    assert_eq!(
        conns[0],
        NetworkConnection {
            protocol: "tcp".into(),
            local: "0.0.0.0:22".into(),
            remote: "0.0.0.0:*".into(),
            state: "LISTEN".into(),
            process: "users:((\"sshd\",pid=1,fd=3))".into(),
        }
    );
    assert_eq!(conns[1].protocol, "udp");
    assert_eq!(conns[1].state, "UNCONN");
    assert_eq!(conns[1].local, "127.0.0.1:323");
    assert_eq!(conns[1].process, "");
}

#[test]
fn parse_connections_of_header_only_is_empty() {
    assert!(parse_connections("").is_empty());
    assert!(parse_connections("Netid State Recv-Q Send-Q Local Peer\n").is_empty());
}

#[test]
fn cpu_tokens_split_commas() {
    let line = "%Cpu(s):  2.0 us,  1.0 sy,  0.0 ni, 96.5 id,  0.5 wa,  0.0 hi,  0.0 si,  0.0 st";
    let toks = cpu_tokens(line);
    assert_eq!(toks[0], "%Cpu(s):");
    assert_eq!(toks[1], "2.0");
    assert_eq!(toks[2], "us");
    assert_eq!(toks[7], "96.5");
    assert_eq!(toks[8], "id");
    assert_eq!(toks.len(), 17);
}

#[test]
fn text_lines_and_trim() {
    assert_eq!(text_lines("a\nb\r\n"), vec!["a".to_string(), "b".to_string()]);
    assert_eq!(trimmed_string("  up 3 days \n"), "up 3 days");
}
