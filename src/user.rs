//! Principals, the admin credential check, the legacy `Authorization`
//! header scheme, and the admin check in front of mutating operations.

use vstd::prelude::*;
use vstd::utf8::{
    encode_utf8, encode_utf8_decode_utf8, encode_utf8_valid_utf8, is_ascii_chars,
    is_ascii_chars_encode_utf8,
};
use crate::errors::ServiceError;
use crate::codecs::{b64_decode, b64_pad, b64_shaped, decodes_to, is_b64_char, utf8_decode};
use crate::text::{first_index_of, has_prefix, starts_with, str_eq};

verus! {

#[derive(Debug, Clone, Copy, PartialEq, Eq, Structural)]
pub enum Role {
    Admin,
    Guest,
}

/// The resolved identity of a caller; a guest has an empty name.
#[derive(Debug, Clone, PartialEq, Eq)]
pub struct User {
    pub username: String,
    pub role: Role,
}

/// The body of a login request.
#[derive(Debug, Clone, PartialEq, Eq)]
pub struct MeRequest {
    pub user: String,
    pub password: String,
}

pub open spec fn is_guest(u: User) -> bool {
    u.username@.len() == 0 && u.role == Role::Guest
}

/// The scheme word that opens the legacy credential header.
pub open spec fn bearer_prefix() -> Seq<char> {
    seq!['B', 'e', 'a', 'r', 'e', 'r', ' ']
}

/// How many `=` make a text of `n` bytes a multiple of four long.
pub open spec fn pad_len(n: nat) -> nat {
    if n % 4 == 0 {
        0
    } else {
        (4 - n % 4) as nat
    }
}

/// `s` with its base64 padding restored, counted in UTF-8 bytes.
pub open spec fn padded(s: Seq<char>) -> Seq<char> {
    s + Seq::new(pad_len(encode_utf8(s).len()), |i: int| '=')
}

/// The header carries `Bearer <base64 of "user:pass">`, padding optional, and
/// its first `:` separates exactly the admin name from the admin password.
pub open spec fn basic_auth_admits(header: Seq<char>, user: Seq<char>, pass: Seq<char>) -> bool {
    &&& has_prefix(header, bearer_prefix())
    &&& decodes_to(
        padded(header.subrange(bearer_prefix().len() as int, header.len() as int)),
        encode_utf8(user + seq![':'] + pass),
    )
    &&& forall|i: int| 0 <= i < user.len() ==> user[i] != ':'
}

impl User {
    pub fn guest() -> (r: User)
        ensures
            is_guest(r),
    {
        User { username: String::new(), role: Role::Guest }
    }

    /// Reads the legacy `Authorization` header: Admin exactly when it names
    /// the configured credentials, else a guest.
    pub fn from_basic_auth(auth_header: Option<&str>, admin_user: &str, admin_pass: &str) -> (r: User)
        ensures
            (auth_header matches Some(h) && basic_auth_admits(h@, admin_user@, admin_pass@)) ==> (
            r.username@ == admin_user@ && r.role == Role::Admin),
            !(auth_header matches Some(h) && basic_auth_admits(h@, admin_user@, admin_pass@))
                ==> is_guest(r),
    {
        if let Some(header) = auth_header {
            let prefix = "Bearer ";
            proof {
                reveal_strlit("Bearer ");
                assert(prefix@ =~= bearer_prefix());
            }
            if starts_with(header, prefix) {
                let b64 = header.substring_char(7, header.unicode_len());
                let ghost expected = encode_utf8(admin_user@ + seq![':'] + admin_pass@);
                if let Ok(decoded) = decode_padded(b64) {
                    let ghost bytes = decoded@;
                    if let Some(cred) = utf8_decode(decoded) {
                        if credentials_match(cred.as_str(), admin_user, admin_pass) {
                            proof {
                                encode_utf8_decode_utf8(cred@);
                            }
                            return User { username: String::from_str(admin_user), role: Role::Admin };
                        }
                        proof {
                            if basic_auth_admits(header@, admin_user@, admin_pass@) {
                                assert(bytes == expected);
                                encode_utf8_decode_utf8(cred@);
                                encode_utf8_decode_utf8(admin_user@ + seq![':'] + admin_pass@);
                            }
                        }
                    } else {
                        proof {
                            encode_utf8_valid_utf8(admin_user@ + seq![':'] + admin_pass@);
                        }
                    }
                }
            }
        }
        User::guest()
    }
}

/// `cred` splits at its first `:` into the admin name and the admin password.
fn credentials_match(cred: &str, admin_user: &str, admin_pass: &str) -> (r: bool)
    ensures
        r == (cred@ == admin_user@ + seq![':'] + admin_pass@ && forall|i: int|
            0 <= i < admin_user@.len() ==> admin_user@[i] != ':'),
{
    let ghost target = admin_user@ + seq![':'] + admin_pass@;
    match first_index_of(cred, ':') {
        None => {
            proof {
                if cred@ == target {
                    assert(cred@[admin_user@.len() as int] == ':');
                }
            }
            false
        },
        Some(k) => {
            let n = cred.unicode_len();
            let name = cred.substring_char(0, k);
            let pass = cred.substring_char(k + 1, n);
            let r = str_eq(name, admin_user) && str_eq(pass, admin_pass);
            proof {
                if r {
                    assert(cred@ =~= target);
                }
                if cred@ == target && forall|i: int|
                    0 <= i < admin_user@.len() ==> admin_user@[i] != ':' {
                    if k < admin_user@.len() {
                        assert(cred@[k as int] == admin_user@[k as int]);
                    }
                    if k > admin_user@.len() {
                        assert(cred@[admin_user@.len() as int] == ':');
                    }
                    assert(name@ =~= admin_user@);
                    assert(pass@ =~= admin_pass@);
                }
            }
            r
        },
    }
}

/// Decodes standard base64, first restoring the `=` padding that clients
/// may leave out.
fn decode_padded(b64: &str) -> (r: Result<Vec<u8>, base64::DecodeError>)
    ensures
        r is Ok ==> decodes_to(padded(b64@), r->Ok_0@),
        r is Ok ==> b64_shaped(padded(b64@), r->Ok_0@.len()),
        forall|b: Seq<u8>| #[trigger] decodes_to(padded(b64@), b) ==> r is Ok && r->Ok_0@ == b,
{
    let mut s = String::from_str(b64);
    let rem = b64.as_bytes().len() % 4;
    let pad: usize = if rem != 0 { 4 - rem } else { 0 };
    let mut k: usize = 0;
    let eq = "=";
    proof {
        reveal_strlit("=");
    }
    while k < pad
        invariant
            k <= pad,
            pad == pad_len(encode_utf8(b64@).len()),
            eq@ == seq!['='],
            s@ == b64@ + Seq::new(k as nat, |i: int| '='),
        decreases pad - k,
    {
        s.append(eq);
        k = k + 1;
        assert(s@ =~= b64@ + Seq::new(k as nat, |i: int| '='));
    }
    b64_decode(s.as_str())
}

/// `s` with every trailing `=` taken off.
pub open spec fn strip_padding(s: Seq<char>) -> Seq<char>
    decreases s.len(),
{
    if s.len() > 0 && s.last() == '=' {
        strip_padding(s.drop_last())
    } else {
        s
    }
}

/// Base64 text over the alphabet is ASCII, so it counts as many bytes as
/// characters.
proof fn lemma_b64_text_bytes(s: Seq<char>)
    requires
        forall|i: int| 0 <= i < s.len() ==> is_b64_char(#[trigger] s[i]),
    ensures
        encode_utf8(s).len() == s.len(),
{
    assert(is_ascii_chars(s));
    is_ascii_chars_encode_utf8(s);
}

/// Padding repair is harmless on base64 text and restores what a client
/// stripped: both the text and the text without its trailing `=` decode,
/// after repair, as the text itself.
pub proof fn lemma_padding_repair(s: Seq<char>, n: nat)
    requires
        b64_shaped(s, n),
    ensures
        padded(s) == s,
        padded(strip_padding(s)) == s,
{
    let k = b64_pad(n);
    lemma_b64_text_bytes(s);
    assert(padded(s) =~= s);
    let t = s.subrange(0, s.len() - k);
    assert(strip_padding(t) == t) by {
        if t.len() > 0 {
            assert(t.last() == s[t.len() - 1]);
        }
    }
    assert(strip_padding(s) == t) by {
        if k == 0 {
            assert(t =~= s);
        } else if k == 1 {
            assert(s.drop_last() =~= t);
            assert(strip_padding(s) == strip_padding(s.drop_last()));
        } else {
            let s1 = s.drop_last();
            assert(s1.drop_last() =~= t);
            assert(s1.last() == s[s.len() - 2]);
            assert(strip_padding(s) == strip_padding(s1));
            assert(strip_padding(s1) == strip_padding(s1.drop_last()));
        }
    }
    assert(forall|i: int| 0 <= i < t.len() ==> t[i] == s[i]);
    lemma_b64_text_bytes(t);
    assert(padded(t) =~= s);
}

/// A header payload that holds a symbol outside the alphabet, or whose
/// length in bytes leaves remainder one by four, is refused: its repaired
/// form has the shape of no base64 text.
pub proof fn lemma_malformed_payload_refused(s: Seq<char>, n: nat)
    requires
        (exists|i: int| 0 <= i < s.len() && !is_b64_char(#[trigger] s[i])) || encode_utf8(s).len()
            % 4 == 1,
    ensures
        !b64_shaped(padded(s), n),
{
    if b64_shaped(padded(s), n) {
        let p = padded(s);
        assert forall|i: int| 0 <= i < s.len() implies is_b64_char(#[trigger] s[i]) by {
            assert(p[i] == s[i]);
        }
        lemma_b64_text_bytes(s);
        assert(p[s.len() as int] == '=');
        assert(p.len() == s.len() + 3);
    }
}

/// Exact comparison of a presented name and password with the configured ones.
pub fn verify_credentials(user: &str, password: &str, admin_user: &str, admin_pass: &str) -> (r: bool)
    ensures
        r == (user@ == admin_user@ && password@ == admin_pass@),
{
    str_eq(user, admin_user) && str_eq(password, admin_pass)
}

/// The login decision: the presented name as Admin on an exact match of both
/// fields, a guest otherwise.
pub fn authenticate(req: &MeRequest, admin_user: &str, admin_pass: &str) -> (r: User)
    ensures
        (req.user@ == admin_user@ && req.password@ == admin_pass@) ==> (r.username@ == req.user@
            && r.role == Role::Admin),
        !(req.user@ == admin_user@ && req.password@ == admin_pass@) ==> is_guest(r),
{
    if verify_credentials(req.user.as_str(), req.password.as_str(), admin_user, admin_pass) {
        User { username: req.user.clone(), role: Role::Admin }
    } else {
        User::guest()
    }
}

/// The admin check: only an Admin may change content.
pub fn require_admin(user: &User) -> (r: bool)
    ensures
        r == (user.role == Role::Admin),
{
    user.role == Role::Admin
}

/// The admin check as an outcome: go on for an Admin, `Unauthorized` for anyone
/// else, before any storage is touched.
pub fn authorize(user: &User) -> (r: Result<(), ServiceError>)
    ensures
        r is Ok <==> user.role == Role::Admin,
        r is Err ==> r == Err::<(), ServiceError>(ServiceError::Unauthorized),
{
    if require_admin(user) {
        Ok(())
    } else {
        Err(ServiceError::Unauthorized)
    }
}

} // verus!
