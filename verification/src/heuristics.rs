//! Stateless protocol heuristics: a user override table keyed by port,
//! a well-known-port table, and a process-name table.

use vstd::prelude::*;
use vstd::pervasive::VecAdditionalExecFns;
use crate::strutil::{after_last_slash, basename, chars_of, chars_to_string, lower_seq, str_eq, to_lower};

verus! {

/// First protocol recorded for `port`, scanning from the front.
pub open spec fn override_lookup(s: Seq<(u16, String)>, port: u16) -> Option<Seq<char>>
    decreases s.len(),
{
    if s.len() == 0 {
        None
    } else if s[0].0 == port {
        Some(s[0].1@)
    } else {
        override_lookup(s.drop_first(), port)
    }
}

/// No port occurs twice.
pub open spec fn override_keys_unique(s: Seq<(u16, String)>) -> bool {
    forall|i: int, j: int| 0 <= i < j < s.len() ==> (#[trigger] s[i].0) != (#[trigger] s[j].0)
}

proof fn lemma_override_found(s: Seq<(u16, String)>, i: int, port: u16)
    requires
        0 <= i < s.len(),
        s[i].0 == port,
        forall|j: int| 0 <= j < i ==> (#[trigger] s[j].0) != port,
    ensures
        override_lookup(s, port) == Some(s[i].1@),
    decreases i,
{
    if i > 0 {
        lemma_override_found(s.drop_first(), i - 1, port);
    }
}

proof fn lemma_override_absent(s: Seq<(u16, String)>, port: u16)
    requires
        forall|j: int| 0 <= j < s.len() ==> (#[trigger] s[j].0) != port,
    ensures
        override_lookup(s, port) is None,
    decreases s.len(),
{
    if s.len() > 0 {
        lemma_override_absent(s.drop_first(), port);
    }
}

proof fn lemma_override_update(s: Seq<(u16, String)>, i: int, v: (u16, String), p2: u16)
    requires
        0 <= i < s.len(),
        v.0 == s[i].0,
        forall|j: int| 0 <= j < i ==> (#[trigger] s[j].0) != s[i].0,
    ensures
        override_lookup(s.update(i, v), p2) == (if p2 == s[i].0 {
            Some(v.1@)
        } else {
            override_lookup(s, p2)
        }),
    decreases i,
{
    let s2 = s.update(i, v);
    if i == 0 {
        if p2 != s[0].0 {
            assert(s2.drop_first() =~= s.drop_first());
        }
    } else {
        assert(s2.drop_first() =~= s.drop_first().update(i - 1, v));
        lemma_override_update(s.drop_first(), i - 1, v, p2);
    }
}

proof fn lemma_override_push(s: Seq<(u16, String)>, e: (u16, String), p2: u16)
    ensures
        override_lookup(s.push(e), p2) == (if override_lookup(s, p2) is Some {
            override_lookup(s, p2)
        } else if e.0 == p2 {
            Some(e.1@)
        } else {
            None::<Seq<char>>
        }),
    decreases s.len(),
{
    let sp = s.push(e);
    if s.len() == 0 {
        assert(sp[0] == e);
        assert(sp.drop_first() =~= Seq::<(u16, String)>::empty());
        if e.0 != p2 {
            assert(override_lookup(sp, p2) == override_lookup(sp.drop_first(), p2));
        }
    } else {
        assert(sp[0] == s[0]);
        assert(sp.drop_first() =~= s.drop_first().push(e));
        lemma_override_push(s.drop_first(), e, p2);
        if s[0].0 == p2 {
            assert(override_lookup(sp, p2) == Some(s[0].1@));
            assert(override_lookup(s, p2) == Some(s[0].1@));
        } else {
            assert(override_lookup(sp, p2) == override_lookup(sp.drop_first(), p2));
            assert(override_lookup(s, p2) == override_lookup(s.drop_first(), p2));
        }
    }
}

/// User-configured protocol names, keyed by port number.
#[derive(Debug, PartialEq)]
pub struct PortOverrides {
    entries: Vec<(u16, String)>,
}

impl View for PortOverrides {
    type V = Seq<(u16, String)>;

    closed spec fn view(&self) -> Seq<(u16, String)> {
        self.entries@
    }
}

impl PortOverrides {
    pub closed spec fn wf(self) -> bool {
        override_keys_unique(self@)
    }

    pub fn new() -> (r: Self)
        ensures
            r@ == Seq::<(u16, String)>::empty(),
            r.wf(),
    {
        PortOverrides { entries: Vec::new() }
    }

    fn find(&self, port: u16) -> (r: Option<usize>)
        ensures
            match r {
                Some(i) => i < self@.len() && self@[i as int].0 == port && (forall|j: int|
                    0 <= j < i ==> (#[trigger] self@[j].0) != port),
                None => forall|j: int| 0 <= j < self@.len() ==> (#[trigger] self@[j].0) != port,
            },
    {
        let mut i: usize = 0;
        let n = self.entries.len();
        while i < n
            invariant
                i <= n,
                n == self@.len(),
                forall|j: int| 0 <= j < i ==> (#[trigger] self@[j].0) != port,
            decreases n - i,
        {
            if self.entries[i].0 == port {
                return Some(i);
            }
            i = i + 1;
        }
        None
    }

    /// The protocol the user fixed for `port`, if any.
    pub fn get(&self, port: u16) -> (r: Option<String>)
        ensures
            match r {
                Some(p) => override_lookup(self@, port) == Some(p@),
                None => override_lookup(self@, port) is None,
            },
    {
        match self.find(port) {
            Some(i) => {
                proof {
                    lemma_override_found(self@, i as int, port);
                }
                Some(self.entries[i].1.clone())
            },
            None => {
                proof {
                    lemma_override_absent(self@, port);
                }
                None
            },
        }
    }

    /// Fixes `protocol` for `port`, replacing any earlier choice for
    /// the same port and touching no other port.
    pub fn set(&mut self, port: u16, protocol: &str)
        requires
            old(self).wf(),
        ensures
            final(self).wf(),
            forall|p2: u16|
                #[trigger] override_lookup(final(self)@, p2) == (if p2 == port {
                    Some(protocol@)
                } else {
                    override_lookup(old(self)@, p2)
                }),
    {
        let entry = (port, protocol.to_owned());
        match self.find(port) {
            Some(i) => {
                let ghost s = self@;
                self.entries.set(i, entry);
                proof {
                    assert forall|p2: u16|
                        #[trigger] override_lookup(self@, p2) == (if p2 == port {
                            Some(protocol@)
                        } else {
                            override_lookup(s, p2)
                        }) by {
                        lemma_override_update(s, i as int, entry, p2);
                    }
                }
            },
            None => {
                let ghost s = self@;
                self.entries.push(entry);
                proof {
                    assert forall|p2: u16|
                        #[trigger] override_lookup(self@, p2) == (if p2 == port {
                            Some(protocol@)
                        } else {
                            override_lookup(s, p2)
                        }) by {
                        lemma_override_push(s, entry, p2);
                        if p2 == port {
                            lemma_override_absent(s, p2);
                        }
                    }
                }
            },
        }
    }

    /// The recorded pairs, for persisting.
    pub fn entries(&self) -> (r: &Vec<(u16, String)>)
        ensures
            r@ == self@,
    {
        &self.entries
    }
}

impl Clone for PortOverrides {
    fn clone(&self) -> (r: Self)
        ensures
            r@ == self@,
            self.wf() ==> r.wf(),
    {
        let mut out: Vec<(u16, String)> = Vec::new();
        let mut i: usize = 0;
        while i < self.entries.len()
            invariant
                i <= self@.len(),
                out@ =~= self@.subrange(0, i as int),
            decreases self@.len() - i,
        {
            let e = (self.entries[i].0, self.entries[i].1.clone());
            out.push(e);
            i = i + 1;
        }
        assert(out@ =~= self@);
        PortOverrides { entries: out }
    }
}

/// The static well-known-port table.
pub open spec fn well_known_protocol(port: u16) -> Option<Seq<char>> {
    if port == 80 || port == 8080 || port == 8000 || port == 8888 || port == 3000 || port == 3001
        || port == 4200 || port == 5000 || port == 5173 || port == 5174 || port == 5500 || port
        == 9000 {
        Some("http"@)
    } else if port == 443 || port == 8443 {
        Some("https"@)
    } else if port == 5432 {
        Some("postgres"@)
    } else if port == 3306 || port == 33060 {
        Some("mysql"@)
    } else if port == 6379 {
        Some("redis"@)
    } else if port == 27017 || port == 27018 {
        Some("mongodb"@)
    } else if port == 5672 || port == 15672 {
        Some("amqp"@)
    } else if port == 9200 || port == 9300 {
        Some("elasticsearch"@)
    } else if port == 8500 || port == 8501 {
        Some("consul"@)
    } else if port == 22 {
        Some("ssh"@)
    } else if port == 25 || port == 587 || port == 465 {
        Some("smtp"@)
    } else if port == 53 {
        Some("dns"@)
    } else if port == 6443 {
        Some("kubernetes"@)
    } else if port == 2181 {
        Some("zookeeper"@)
    } else if port == 9092 {
        Some("kafka"@)
    } else if port == 11211 {
        Some("memcached"@)
    } else if port == 1433 {
        Some("mssql"@)
    } else if port == 1521 {
        Some("oracle"@)
    } else {
        None
    }
}

/// What `protocol_for_port` returns: the user override when one is set
/// for the port, else the well-known-port table's answer.
pub open spec fn port_protocol(overrides: Seq<(u16, String)>, port: u16) -> Option<Seq<char>> {
    if override_lookup(overrides, port) is Some {
        override_lookup(overrides, port)
    } else {
        well_known_protocol(port)
    }
}

/// Protocol for a port number: a user override takes precedence over
/// the static well-known-port table.
pub fn protocol_for_port(port: u16, user_overrides: &PortOverrides) -> (r: Option<String>)
    ensures
        match r {
            Some(p) => port_protocol(user_overrides@, port) == Some(p@),
            None => port_protocol(user_overrides@, port) is None,
        },
{
    if let Some(p) = user_overrides.get(port) {
        return Some(p);
    }
    if port == 80 || port == 8080 || port == 8000 || port == 8888 || port == 3000 || port == 3001
        || port == 4200 || port == 5000 || port == 5173 || port == 5174 || port == 5500 || port
        == 9000 {
        Some("http".to_owned())
    } else if port == 443 || port == 8443 {
        Some("https".to_owned())
    } else if port == 5432 {
        Some("postgres".to_owned())
    } else if port == 3306 || port == 33060 {
        Some("mysql".to_owned())
    } else if port == 6379 {
        Some("redis".to_owned())
    } else if port == 27017 || port == 27018 {
        Some("mongodb".to_owned())
    } else if port == 5672 || port == 15672 {
        Some("amqp".to_owned())
    } else if port == 9200 || port == 9300 {
        Some("elasticsearch".to_owned())
    } else if port == 8500 || port == 8501 {
        Some("consul".to_owned())
    } else if port == 22 {
        Some("ssh".to_owned())
    } else if port == 25 || port == 587 || port == 465 {
        Some("smtp".to_owned())
    } else if port == 53 {
        Some("dns".to_owned())
    } else if port == 6443 {
        Some("kubernetes".to_owned())
    } else if port == 2181 {
        Some("zookeeper".to_owned())
    } else if port == 9092 {
        Some("kafka".to_owned())
    } else if port == 11211 {
        Some("memcached".to_owned())
    } else if port == 1433 {
        Some("mssql".to_owned())
    } else if port == 1521 {
        Some("oracle".to_owned())
    } else {
        None
    }
}

/// The static process-name table, applied to the lower-cased final
/// path segment of the process name.
pub open spec fn process_protocol(name: Seq<char>) -> Option<Seq<char>> {
    let base = lower_seq(after_last_slash(name));
    if base == "node"@ || base == "deno"@ || base == "bun"@ || base == "python"@ || base
        == "python3"@ || base == "ruby"@ || base == "php"@ || base == "java"@ || base == "go"@
        || base == "dotnet"@ || base == "uvicorn"@ || base == "gunicorn"@ || base == "flask"@
        || base == "django"@ || base == "next-server"@ || base == "webpack"@ || base == "vite"@
        || base == "nginx"@ || base == "apache2"@ || base == "httpd"@ || base == "caddy"@ {
        Some("http"@)
    } else if base == "postgres"@ || base == "pg_isready"@ || base == "postgresql"@ {
        Some("postgres"@)
    } else if base == "mysqld"@ || base == "mariadbd"@ || base == "mysql"@ {
        Some("mysql"@)
    } else if base == "redis-server"@ || base == "redis-sentinel"@ {
        Some("redis"@)
    } else if base == "mongod"@ || base == "mongos"@ {
        Some("mongodb"@)
    } else if base == "rabbitmq-server"@ || base == "beam.smp"@ {
        Some("amqp"@)
    } else if base == "elasticsearch"@ || base == "opensearch"@ {
        Some("elasticsearch"@)
    } else if base == "sshd"@ {
        Some("ssh"@)
    } else {
        None
    }
}

/// Likely protocol for a process name: the lower-cased final path
/// segment is looked up in a static table.
pub fn protocol_for_process(process_name: &str) -> (r: Option<String>)
    ensures
        match r {
            Some(p) => process_protocol(process_name@) == Some(p@),
            None => process_protocol(process_name@) is None,
        },
{
    let base_vec = to_lower(&basename(&chars_of(process_name)));
    let base = chars_to_string(&base_vec);
    let b = base.as_str();
    if str_eq(b, "node") || str_eq(b, "deno") || str_eq(b, "bun") || str_eq(b, "python") || str_eq(
        b,
        "python3",
    ) || str_eq(b, "ruby") || str_eq(b, "php") || str_eq(b, "java") || str_eq(b, "go") || str_eq(
        b,
        "dotnet",
    ) || str_eq(b, "uvicorn") || str_eq(b, "gunicorn") || str_eq(b, "flask") || str_eq(b, "django")
        || str_eq(b, "next-server") || str_eq(b, "webpack") || str_eq(b, "vite") || str_eq(
        b,
        "nginx",
    ) || str_eq(b, "apache2") || str_eq(b, "httpd") || str_eq(b, "caddy") {
        Some("http".to_owned())
    } else if str_eq(b, "postgres") || str_eq(b, "pg_isready") || str_eq(b, "postgresql") {
        Some("postgres".to_owned())
    } else if str_eq(b, "mysqld") || str_eq(b, "mariadbd") || str_eq(b, "mysql") {
        Some("mysql".to_owned())
    } else if str_eq(b, "redis-server") || str_eq(b, "redis-sentinel") {
        Some("redis".to_owned())
    } else if str_eq(b, "mongod") || str_eq(b, "mongos") {
        Some("mongodb".to_owned())
    } else if str_eq(b, "rabbitmq-server") || str_eq(b, "beam.smp") {
        Some("amqp".to_owned())
    } else if str_eq(b, "elasticsearch") || str_eq(b, "opensearch") {
        Some("elasticsearch".to_owned())
    } else if str_eq(b, "sshd") {
        Some("ssh".to_owned())
    } else {
        None
    }
}

} // verus!
