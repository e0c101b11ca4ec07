//! Trust on first use of the jump host's identity.
use vstd::prelude::*;
use crate::error::Error;

verus! {

/// Unicode White_Space, the separator of the fields of an OpenSSH key line.
pub open spec fn is_space(c: char) -> bool {
    let u = c as u32;
    (9 <= u <= 13) || u == 32 || u == 0x85 || u == 0xA0 || u == 0x1680 || (0x2000 <= u <= 0x200A)
        || u == 0x2028 || u == 0x2029 || u == 0x202F || u == 0x205F || u == 0x3000
}

/// The first index at or after `i` whose character is not a space (or the length).
pub open spec fn skip_spaces(s: Seq<char>, i: int) -> int
    decreases s.len() - i,
{
    if i < 0 || i >= s.len() || !is_space(s[i]) {
        i
    } else {
        skip_spaces(s, i + 1)
    }
}

/// The first index at or after `i` whose character is a space (or the length).
pub open spec fn skip_word(s: Seq<char>, i: int) -> int
    decreases s.len() - i,
{
    if i < 0 || i >= s.len() || is_space(s[i]) {
        i
    } else {
        skip_word(s, i + 1)
    }
}

/// The second whitespace-separated field of a key line: the encoded key of
/// `algorithm key [comment]`.
pub open spec fn key_field(s: Seq<char>) -> Option<Seq<char>> {
    let a = skip_spaces(s, 0);
    let b = skip_word(s, a);
    let c = skip_spaces(s, b);
    let d = skip_word(s, c);
    if c < s.len() {
        Some(s.subrange(c, d))
    } else {
        None
    }
}

/// What the verifier concludes after the handshake: the key to pin the tunnel
/// to, or why the connection may not go on.
pub open spec fn host_key_verdict(authenticated: bool, stored: Seq<char>, presented: Seq<char>) -> Result<
    Seq<char>,
    Error,
> {
    if !authenticated {
        Err(Error::AuthenticationFailure)
    } else if stored.len() == 0 {
        Err(Error::HostKeyPending)
    } else if stored != presented {
        Err(Error::HostKeyMismatch)
    } else {
        match key_field(stored) {
            Some(k) => Ok(k),
            None => Err(Error::KeyFormat),
        }
    }
}

/// The record kept for a host after the operator answered: the presented
/// identity where the answer is `true`, the old record otherwise.
pub open spec fn record_after_answer(stored: Seq<char>, answer: Seq<char>, presented: Seq<char>) -> Seq<char> {
    if answer == seq!['t', 'r', 'u', 'e'] {
        presented
    } else {
        stored
    }
}

fn is_space_exec(c: char) -> (r: bool)
    ensures
        r == is_space(c),
{
    let u = c as u32;
    (9 <= u && u <= 13) || u == 32 || u == 0x85 || u == 0xA0 || u == 0x1680 || (0x2000 <= u && u
        <= 0x200A) || u == 0x2028 || u == 0x2029 || u == 0x202F || u == 0x205F || u == 0x3000
}

fn skip_exec(s: &str, n: usize, i: usize, spaces: bool) -> (r: usize)
    requires
        n as nat == s@.len(),
        i <= n,
    ensures
        r as int == if spaces {
            skip_spaces(s@, i as int)
        } else {
            skip_word(s@, i as int)
        },
        i <= r <= n,
    decreases n - i,
{
    if i < n && is_space_exec(s.get_char(i)) == spaces {
        skip_exec(s, n, i + 1, spaces)
    } else {
        i
    }
}

/// The encoded key of an OpenSSH key line, its second field.
pub fn key_body(line: &str) -> (r: Option<&str>)
    ensures
        match key_field(line@) {
            Some(k) => r is Some && r->0@ == k,
            None => r is None,
        },
{
    let n = line.unicode_len();
    let a = skip_exec(line, n, 0, true);
    let b = skip_exec(line, n, a, false);
    let c = skip_exec(line, n, b, true);
    let d = skip_exec(line, n, c, false);
    if c < n {
        Some(line.substring_char(c, d))
    } else {
        None
    }
}

/// Decides, after the handshake, whether the connection may go on: a refused
/// password fails; an identity seen for the first time is pending the
/// operator's answer; one that differs from the pinned identity is a mismatch;
/// a matching one yields the encoded key to pin the tunnel to.
pub fn verify_host_key(authenticated: bool, stored: &str, presented: &str) -> (r: Result<String, Error>)
    ensures
        match r {
            Ok(k) => host_key_verdict(authenticated, stored@, presented@) == Ok::<Seq<char>, Error>(k@),
            Err(e) => host_key_verdict(authenticated, stored@, presented@) == Err::<Seq<char>, Error>(e),
        },
{
    if !authenticated {
        return Err(Error::AuthenticationFailure);
    }
    if stored.unicode_len() == 0 {
        return Err(Error::HostKeyPending);
    }
    let same = stored.to_owned() == presented.to_owned();
    if !same {
        return Err(Error::HostKeyMismatch);
    }
    match key_body(stored) {
        Some(k) => Ok(k.to_owned()),
        None => Err(Error::KeyFormat),
    }
}

/// The record to keep after the operator answered the first-use question:
/// the presented identity where the answer is `true`, else the old record.
pub fn record_after_confirmation(stored: &str, answer: &str, presented: &str) -> (r: String)
    ensures
        r@ == record_after_answer(stored@, answer@, presented@),
{
    proof {
        reveal_strlit("true");
    }
    assert("true"@ =~= seq!['t', 'r', 'u', 'e']);
    if answer.to_owned() == "true".to_owned() {
        presented.to_owned()
    } else {
        stored.to_owned()
    }
}

/// Trust on first use: a host seen for the first time is pending, never
/// trusted; once the operator accepted its identity, the same identity is
/// trusted and yields its key, and any other identity is a mismatch.
pub proof fn lemma_trust_on_first_use(first: Seq<char>, later: Seq<char>)
    requires
        first.len() > 0,
        key_field(first) is Some,
    ensures
        host_key_verdict(true, Seq::empty(), first) == Err::<Seq<char>, Error>(Error::HostKeyPending),
        ({
            let pinned = record_after_answer(Seq::empty(), seq!['t', 'r', 'u', 'e'], first);
            &&& host_key_verdict(true, pinned, first) == Ok::<Seq<char>, Error>(key_field(first)->0)
            &&& later != first ==> host_key_verdict(true, pinned, later) == Err::<Seq<char>, Error>(
                Error::HostKeyMismatch,
            )
        }),
{
}

} // verus!
