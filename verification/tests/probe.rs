use nook::probe::identify_protocol_from_banner;

#[test]
fn test_http_banner() {
    assert_eq!(
        identify_protocol_from_banner("HTTP/1.1 200 OK\r\n"),
        Some("http".to_string())
    );
}

#[test]
fn test_ssh_banner() {
    assert_eq!(
        identify_protocol_from_banner("SSH-2.0-OpenSSH_9.0\r\n"),
        Some("ssh".to_string())
    );
}

#[test]
fn test_redis_banner() {
    assert_eq!(
        identify_protocol_from_banner("+PONG\r\n"),
        Some("redis".to_string())
    );
}

#[test]
fn test_postgres_banner() {
    assert_eq!(
        identify_protocol_from_banner("\0\0\0\x08PostgreSQL"),
        Some("postgres".to_string())
    );
}

#[test]
fn test_smtp_banner() {
    assert_eq!(
        identify_protocol_from_banner("220 mail.example.com ESMTP"),
        Some("smtp".to_string())
    );
}

#[test]
fn test_ftp_banner() {
    assert_eq!(
        identify_protocol_from_banner("220 FTP server ready"),
        Some("ftp".to_string())
    );
}

#[test]
fn test_unknown_banner() {
    assert_eq!(identify_protocol_from_banner("some random data"), None);
}
