use nook::scan::{parse_proc_net_tcp, parse_ss_output};

#[test]
fn test_parse_ss_output() {
    let output = r#"State  Recv-Q Send-Q Local Address:Port  Peer Address:Port Process
LISTEN 0      511          0.0.0.0:3000       0.0.0.0:*     users:(("node",pid=1234,fd=3))
LISTEN 0      128          0.0.0.0:5432       0.0.0.0:*     users:(("postgres",pid=5678,fd=5))
LISTEN 0      511             [::]:3000          [::]:*     users:(("node",pid=1234,fd=4))
"#;
    let ports = parse_ss_output(output);
    assert_eq!(ports.len(), 2);
    assert_eq!(ports[0].port, 3000);
    assert_eq!(ports[0].process_name, Some("node".to_string()));
    assert_eq!(ports[0].pid, Some(1234));
    assert_eq!(ports[1].port, 5432);
    assert_eq!(ports[1].process_name, Some("postgres".to_string()));
}

#[test]
fn test_parse_ss_output_no_process() {
    let output = r#"State  Recv-Q Send-Q Local Address:Port  Peer Address:Port Process
LISTEN 0      128    *:8080                *:*
"#;
    let ports = parse_ss_output(output);
    assert_eq!(ports.len(), 1);
    assert_eq!(ports[0].port, 8080);
    assert_eq!(ports[0].process_name, None);
}

#[test]
fn test_parse_proc_net_tcp() {
    let output = r#"  sl  local_address rem_address   st tx_queue rx_queue tr tm->when retrnsmt   uid  timeout inode
   0: 00000000:0BB8 00000000:0000 0A 00000000:00000000 00:00000000 00000000  1000        0 12345
   1: 00000000:1538 00000000:0000 0A 00000000:00000000 00:00000000 00000000  1000        0 12346
   2: 0100007F:0035 00000000:0000 01 00000000:00000000 00:00000000 00000000     0        0 12347
"#;
    let ports = parse_proc_net_tcp(output);
    assert_eq!(ports.len(), 2);
    assert_eq!(ports[0].port, 3000); // 0x0BB8
    assert_eq!(ports[1].port, 5432); // 0x1538
}

#[test]
fn test_parse_empty_output() {
    assert!(parse_ss_output("").is_empty());
    assert!(parse_proc_net_tcp("").is_empty());
}

#[test]
fn test_parse_proc_net_tcp_skips_non_listen() {
    let output = "header\n   0: 0100007F:0035 00000000:0000 01 0 0 0 0 0 0 0 0\n";
    assert!(parse_proc_net_tcp(output).is_empty());
}
