//! Matching an initial burst of bytes read from a socket against known
//! protocol banner signatures.

use vstd::prelude::*;
use crate::strutil::{chars_of, contains_seq, contains_seq_spec, lower_seq, starts_with,
    starts_with_spec, to_lower};

verus! {

/// The banner-signature table: which protocol a read banner names.
pub open spec fn banner_protocol(s: Seq<char>) -> Option<Seq<char>> {
    let low = lower_seq(s);
    if starts_with_spec(s, "HTTP/"@) || contains_seq_spec(low, "http/"@) {
        Some("http"@)
    } else if starts_with_spec(s, "SSH-"@) {
        Some("ssh"@)
    } else if starts_with_spec(s, "+OK"@) {
        Some("pop3"@)
    } else if starts_with_spec(s, "220 "@) {
        if contains_seq_spec(low, "ftp"@) {
            Some("ftp"@)
        } else {
            Some("smtp"@)
        }
    } else if contains_seq_spec(low, "postgresql"@) || contains_seq_spec(low, "postgres"@) {
        Some("postgres"@)
    } else if starts_with_spec(s, "-ERR"@) || starts_with_spec(s, "+PONG"@) || starts_with_spec(
        s,
        "$"@,
    ) {
        Some("redis"@)
    } else if contains_seq_spec(low, "mysql"@) || contains_seq_spec(low, "mariadb"@) {
        Some("mysql"@)
    } else if contains_seq_spec(low, "mongodb"@) || contains_seq_spec(low, "mongod"@) {
        Some("mongodb"@)
    } else if contains_seq_spec(low, "redis"@) {
        Some("redis"@)
    } else {
        None
    }
}

/// Matches banner text against known protocol signatures; `None` when
/// nothing is recognised.
pub fn identify_protocol_from_banner(banner: &str) -> (r: Option<String>)
    ensures
        match r {
            Some(p) => banner_protocol(banner@) == Some(p@),
            None => banner_protocol(banner@) is None,
        },
{
    let b = chars_of(banner);
    let low = to_lower(&b);
    if starts_with(&b, &chars_of("HTTP/")) || contains_seq(&low, &chars_of("http/")) {
        Some("http".to_owned())
    } else if starts_with(&b, &chars_of("SSH-")) {
        Some("ssh".to_owned())
    } else if starts_with(&b, &chars_of("+OK")) {
        Some("pop3".to_owned())
    } else if starts_with(&b, &chars_of("220 ")) {
        if contains_seq(&low, &chars_of("ftp")) {
            Some("ftp".to_owned())
        } else {
            Some("smtp".to_owned())
        }
    } else if contains_seq(&low, &chars_of("postgresql")) || contains_seq(
        &low,
        &chars_of("postgres"),
    ) {
        Some("postgres".to_owned())
    } else if starts_with(&b, &chars_of("-ERR")) || starts_with(&b, &chars_of("+PONG"))
        || starts_with(&b, &chars_of("$")) {
        Some("redis".to_owned())
    } else if contains_seq(&low, &chars_of("mysql")) || contains_seq(&low, &chars_of("mariadb")) {
        Some("mysql".to_owned())
    } else if contains_seq(&low, &chars_of("mongodb")) || contains_seq(&low, &chars_of("mongod")) {
        Some("mongodb".to_owned())
    } else if contains_seq(&low, &chars_of("redis")) {
        Some("redis".to_owned())
    } else {
        None
    }
}

} // verus!
