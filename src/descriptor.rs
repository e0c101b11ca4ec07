//! The connection descriptor and the connection strings built from it.
use vstd::prelude::*;
use crate::error::Error;
use crate::query::{chars_of, string_from_chars};

verus! {

/// How to reach one database: directly, or through an SSH jump host.
pub struct MongoData {
    pub id: String,
    pub connect_type: String,
    pub mongo_auth_method: String,
    pub ssh_host: String,
    pub ssh_port: u16,
    pub ssh_username: String,
    pub mongo_host: String,
    pub mongo_port: u16,
    pub mongo_username: String,
    pub db_name: String,
}

impl MongoData {
    pub fn new(
        id: String,
        connect_type: String,
        mongo_auth_method: String,
        ssh_host: String,
        ssh_port: u16,
        ssh_username: String,
        mongo_host: String,
        mongo_port: u16,
        mongo_username: String,
        db_name: String,
    ) -> (r: Self)
        ensures
            r.id == id,
            r.connect_type == connect_type,
            r.mongo_auth_method == mongo_auth_method,
            r.ssh_host == ssh_host,
            r.ssh_port == ssh_port,
            r.ssh_username == ssh_username,
            r.mongo_host == mongo_host,
            r.mongo_port == mongo_port,
            r.mongo_username == mongo_username,
            r.db_name == db_name,
    {
        MongoData {
            id,
            connect_type,
            mongo_auth_method,
            ssh_host,
            ssh_port,
            ssh_username,
            mongo_host,
            mongo_port,
            mongo_username,
            db_name,
        }
    }

    /// Whether the database is reached through the SSH jump host.
    pub fn uses_ssh(&self) -> (r: bool)
        ensures
            r == (self.connect_type@ == seq!['s', 's', 'h']),
    {
        proof {
            reveal_strlit("ssh");
        }
        assert("ssh"@ =~= seq!['s', 's', 'h']);
        self.connect_type == "ssh".to_owned()
    }

    /// Whether the database asks for a user name and password.
    pub fn uses_password(&self) -> (r: bool)
        ensures
            r == is_userpass(self.mongo_auth_method@),
    {
        auth_is_userpass(self.mongo_auth_method.as_str())
    }
}

pub open spec fn is_userpass(method: Seq<char>) -> bool {
    method == seq!['u', 's', 'e', 'r', 'p', 'a', 's', 's']
}

fn auth_is_userpass(method: &str) -> (r: bool)
    ensures
        r == is_userpass(method@),
{
    proof {
        reveal_strlit("userpass");
    }
    assert("userpass"@ =~= seq!['u', 's', 'e', 'r', 'p', 'a', 's', 's']);
    method.to_owned() == "userpass".to_owned()
}

pub open spec fn digit_char(d: nat) -> char {
    seq!['0', '1', '2', '3', '4', '5', '6', '7', '8', '9'][d as int]
}

/// The decimal digits of `n`, without leading zeros.
pub open spec fn decimal_text(n: nat) -> Seq<char>
    decreases n,
{
    if n < 10 {
        seq![digit_char(n)]
    } else {
        decimal_text(n / 10).push(digit_char(n % 10))
    }
}

fn digit(d: u16) -> (r: char)
    requires
        d < 10,
    ensures
        r == digit_char(d as nat),
{
    let digits: [char; 10] = ['0', '1', '2', '3', '4', '5', '6', '7', '8', '9'];
    assert(digits@ =~= seq!['0', '1', '2', '3', '4', '5', '6', '7', '8', '9']);
    digits[d as usize]
}

fn push_decimal(out: &mut Vec<char>, n: u16)
    ensures
        final(out)@ == old(out)@ + decimal_text(n as nat),
    decreases n,
{
    if n >= 10 {
        push_decimal(out, n / 10);
    }
    out.push(digit(n % 10));
    assert(final(out)@ =~= old(out)@ + decimal_text(n as nat));
}

fn push_text(out: &mut Vec<char>, s: &str)
    ensures
        final(out)@ == old(out)@ + s@,
{
    let chars = chars_of(s);
    let mut i: usize = 0;
    while i < chars.len()
        invariant
            chars@ == s@,
            i <= chars@.len(),
            out@ == old(out)@ + s@.subrange(0, i as int),
        decreases chars@.len() - i,
    {
        out.push(chars[i]);
        i = i + 1;
        assert(out@ =~= old(out)@ + s@.subrange(0, i as int));
    }
    assert(s@.subrange(0, s@.len() as int) =~= s@);
}

/// `user:password@`, or nothing where no password is given.
pub open spec fn credentials_text(user: Seq<char>, password: Option<Seq<char>>) -> Seq<char> {
    match password {
        Some(p) => user + seq![':'] + p + seq!['@'],
        None => Seq::empty(),
    }
}

/// `mongodb://[user:password@]host:port/db`.
pub open spec fn uri_text(user: Seq<char>, password: Option<Seq<char>>, host: Seq<char>, port: u16, db: Seq<char>) -> Seq<char> {
    "mongodb://"@ + credentials_text(user, password) + host + seq![':'] + decimal_text(port as nat)
        + seq!['/'] + db
}

fn build_uri(user: &str, password: Option<&str>, host: &str, port: u16, db: &str) -> (r: String)
    ensures
        r@ == uri_text(
            user@,
            match password {
                Some(p) => Some(p@),
                None => None,
            },
            host@,
            port,
            db@,
        ),
{
    let mut out: Vec<char> = Vec::new();
    push_text(&mut out, "mongodb://");
    match password {
        Some(p) => {
            push_text(&mut out, user);
            out.push(':');
            push_text(&mut out, p);
            out.push('@');
        },
        None => {},
    }
    push_text(&mut out, host);
    out.push(':');
    push_decimal(&mut out, port);
    out.push('/');
    push_text(&mut out, db);
    let ghost pw = match password {
        Some(p) => Some(p@),
        None => None,
    };
    assert(out@ =~= uri_text(user@, pw, host@, port, db@));
    string_from_chars(out)
}

/// The connection string of a direct connection: with the user and the
/// password under the `userpass` method (none where no password is stored),
/// else without them.
pub open spec fn direct_uri_text(mongo_data: MongoData, password: Option<Seq<char>>) -> Option<Seq<char>> {
    if is_userpass(mongo_data.mongo_auth_method@) {
        match password {
            Some(p) => Some(
                uri_text(
                    mongo_data.mongo_username@,
                    Some(p),
                    mongo_data.mongo_host@,
                    mongo_data.mongo_port,
                    mongo_data.db_name@,
                ),
            ),
            None => None,
        }
    } else {
        Some(
            uri_text(
                mongo_data.mongo_username@,
                None,
                mongo_data.mongo_host@,
                mongo_data.mongo_port,
                mongo_data.db_name@,
            ),
        )
    }
}

/// The connection string of a direct connection; asking for a password
/// without one stored is a `MissingSecret` error.
pub fn format_uri(mongo_data: &MongoData, mongo_password: Option<&str>) -> (r: Result<String, Error>)
    ensures
        match direct_uri_text(
            *mongo_data,
            match mongo_password {
                Some(p) => Some(p@),
                None => None,
            },
        ) {
            Some(u) => r is Ok && r->Ok_0@ == u,
            None => r is Err && r->Err_0 is MissingSecret,
        },
{
    if mongo_data.uses_password() {
        match mongo_password {
            Some(p) => Ok(
                build_uri(
                    mongo_data.mongo_username.as_str(),
                    Some(p),
                    mongo_data.mongo_host.as_str(),
                    mongo_data.mongo_port,
                    mongo_data.db_name.as_str(),
                ),
            ),
            None => Err(Error::MissingSecret("mongoPassword".to_owned())),
        }
    } else {
        Ok(
            build_uri(
                mongo_data.mongo_username.as_str(),
                None,
                mongo_data.mongo_host.as_str(),
                mongo_data.mongo_port,
                mongo_data.db_name.as_str(),
            ),
        )
    }
}

/// The connection string through a tunnel listening on the local `port`:
/// `mongodb://[user:password@]127.0.0.1:port/db`, with credentials where the
/// authentication method is `userpass`.
pub fn tunnel_uri(auth_method: &str, user: &str, password: &str, port: u16, db_name: &str) -> (r: String)
    ensures
        r@ == uri_text(
            user@,
            if is_userpass(auth_method@) {
                Some(password@)
            } else {
                None
            },
            "127.0.0.1"@,
            port,
            db_name@,
        ),
{
    if auth_is_userpass(auth_method) {
        build_uri(user, Some(password), "127.0.0.1", port, db_name)
    } else {
        build_uri(user, None, "127.0.0.1", port, db_name)
    }
}

/// The passwords a tunnelled connection needs, from what the secret store
/// holds: the SSH password always, the database password only under the
/// `userpass` method (empty otherwise).
pub fn tunnel_credentials(mongo_data: &MongoData, ssh_password: Option<&str>, mongo_password: Option<&str>) -> (r: Result<(String, String), Error>)
    ensures
        match (ssh_password, mongo_password) {
            (None, _) => r is Err && r->Err_0 is MissingSecret,
            (Some(s), Some(m)) => r is Ok && r->Ok_0.0@ == s@ && r->Ok_0.1@ == if is_userpass(
                mongo_data.mongo_auth_method@,
            ) {
                m@
            } else {
                Seq::<char>::empty()
            },
            (Some(s), None) => if is_userpass(mongo_data.mongo_auth_method@) {
                r is Err && r->Err_0 is MissingSecret
            } else {
                r is Ok && r->Ok_0.0@ == s@ && r->Ok_0.1@ == Seq::<char>::empty()
            },
        },
{
    let mongo = if mongo_data.uses_password() {
        match mongo_password {
            Some(m) => m.to_owned(),
            None => return Err(Error::MissingSecret("mongoPassword".to_owned())),
        }
    } else {
        String::new()
    };
    match ssh_password {
        Some(s) => Ok((s.to_owned(), mongo)),
        None => Err(Error::MissingSecret("sshPassword".to_owned())),
    }
}

} // verus!
