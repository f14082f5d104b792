//! Session tokens: a claim set (subject, role, expiry) signed with
//! HMAC-SHA256 under a shared secret, carried in the `admin_token` cookie,
//! and the resolution of a request's cookie to a principal.
//!
//! A token is `base64(payload) "." base64(tag)`, where the payload is the
//! expiry as eight big-endian bytes, one role byte, and the subject in UTF-8,
//! and the tag is the HMAC of the payload.

use vstd::prelude::*;
use vstd::slice::{slice_subrange, slice_to_vec};
use vstd::utf8::{
    decode_utf8, encode_utf8, encode_utf8_decode_utf8, encode_utf8_valid_utf8, valid_utf8,
};
use crate::codecs::{b64_decode, b64_encode, b64_encoded, decodes_to, hmac_sha256, hmac_sha256_of, is_b64_char, utf8_decode};
use crate::text::first_index_of;
use crate::errors::ServiceError;
use crate::user::{authenticate, is_guest, require_admin, MeRequest, Role, User};

verus! {

/// How long a token lives: one day, in seconds.
pub const TOKEN_TTL: u64 = 86400;

/// The claim set that a token carries; `expiry` is in unix seconds.
#[derive(Debug, Clone, PartialEq, Eq)]
pub struct Claims {
    pub subject: String,
    pub role: Role,
    pub expiry: u64,
}

pub struct ClaimsView {
    pub subject: Seq<char>,
    pub role: Role,
    pub expiry: u64,
}

impl View for Claims {
    type V = ClaimsView;

    open spec fn view(&self) -> ClaimsView {
        ClaimsView { subject: self.subject@, role: self.role, expiry: self.expiry }
    }
}

pub open spec fn opt_view(o: Option<Claims>) -> Option<ClaimsView> {
    match o {
        Some(c) => Some(c@),
        None => None,
    }
}

/// `n` as eight bytes, most significant first.
pub open spec fn be8(n: u64) -> Seq<u8> {
    seq![
        (n >> 56u64) as u8,
        (n >> 48u64) as u8,
        (n >> 40u64) as u8,
        (n >> 32u64) as u8,
        (n >> 24u64) as u8,
        (n >> 16u64) as u8,
        (n >> 8u64) as u8,
        n as u8,
    ]
}

/// The number that eight bytes write, most significant first.
pub open spec fn from_be8(b0: u8, b1: u8, b2: u8, b3: u8, b4: u8, b5: u8, b6: u8, b7: u8) -> u64 {
    ((b0 as u64) << 56u64) | ((b1 as u64) << 48u64) | ((b2 as u64) << 40u64) | ((b3 as u64)
        << 32u64) | ((b4 as u64) << 24u64) | ((b5 as u64) << 16u64) | ((b6 as u64) << 8u64) | (
    b7 as u64)
}

pub open spec fn role_tag(r: Role) -> u8 {
    match r {
        Role::Admin => 65,
        Role::Guest => 71,
    }
}

pub open spec fn role_of_tag(t: u8) -> Option<Role> {
    if t == 65 {
        Some(Role::Admin)
    } else if t == 71 {
        Some(Role::Guest)
    } else {
        None
    }
}

/// The signed payload of a claim set.
pub open spec fn claims_bytes(c: ClaimsView) -> Seq<u8> {
    be8(c.expiry) + seq![role_tag(c.role)] + encode_utf8(c.subject)
}

/// The claim set a payload writes, if it writes one.
pub open spec fn claims_of(p: Seq<u8>) -> Option<ClaimsView> {
    if p.len() >= 9 && role_of_tag(p[8]) is Some && valid_utf8(p.subrange(9, p.len() as int)) {
        Some(
            ClaimsView {
                subject: decode_utf8(p.subrange(9, p.len() as int)),
                role: role_of_tag(p[8])->Some_0,
                expiry: from_be8(p[0], p[1], p[2], p[3], p[4], p[5], p[6], p[7]),
            },
        )
    } else {
        None
    }
}

/// The claims of a payload while they are unexpired at `now`.
pub open spec fn live_claims(p: Seq<u8>, now: u64) -> Option<ClaimsView> {
    match claims_of(p) {
        Some(c) => if c.expiry > now {
            Some(c)
        } else {
            None
        },
        None => None,
    }
}

/// The token that carries payload `p` signed under `key`.
pub open spec fn signed_token(p: Seq<u8>, key: Seq<u8>) -> Seq<char> {
    b64_encoded(p) + seq!['.'] + b64_encoded(hmac_sha256_of(key, p))
}

pub open spec fn dot_free(s: Seq<char>) -> bool {
    forall|i: int| 0 <= i < s.len() ==> s[i] != '.'
}

/// What reading token `t` under `key` at `now` may give: claims only of a
/// payload that the token carries with its valid tag, and, for every payload
/// that it so carries, exactly that payload's unexpired claims.
pub open spec fn token_outcome(t: Seq<char>, key: Seq<u8>, now: u64, o: Option<ClaimsView>) -> bool {
    &&& o is Some ==> exists|p: Seq<u8>| #[trigger]
        signed_token(p, key) == t && live_claims(p, now) == o
    &&& forall|p: Seq<u8>|
        #[trigger] signed_token(p, key) == t && dot_free(b64_encoded(p)) ==> o == live_claims(
            p,
            now,
        )
}

/// `t` is the token that `issue_token` gives for claims `c` under `key`.
pub open spec fn issued(c: ClaimsView, key: Seq<u8>, t: Seq<char>) -> bool {
    t == signed_token(claims_bytes(c), key) && dot_free(b64_encoded(claims_bytes(c)))
}

/// The name and role of the principal that claims resolve to.
pub open spec fn principal_of(o: Option<ClaimsView>) -> (Seq<char>, Role) {
    match o {
        Some(c) => (c.subject, c.role),
        None => (seq![], Role::Guest),
    }
}

/// Token `t` read under `key` at `now` may resolve to the principal
/// `(name, role)`.
pub open spec fn resolves_to(t: Seq<char>, key: Seq<u8>, now: u64, name: Seq<char>, role: Role) -> bool {
    exists|o: Option<ClaimsView>| #[trigger]
        token_outcome(t, key, now, o) && (name, role) == principal_of(o)
}

proof fn lemma_be8_round_trip(n: u64)
    ensures
        from_be8(
            be8(n)[0],
            be8(n)[1],
            be8(n)[2],
            be8(n)[3],
            be8(n)[4],
            be8(n)[5],
            be8(n)[6],
            be8(n)[7],
        ) == n,
{
    assert(((((n >> 56u64) as u8) as u64) << 56u64) | ((((n >> 48u64) as u8) as u64) << 48u64) | ((
    ((n >> 40u64) as u8) as u64) << 40u64) | ((((n >> 32u64) as u8) as u64) << 32u64) | ((((n
        >> 24u64) as u8) as u64) << 24u64) | ((((n >> 16u64) as u8) as u64) << 16u64) | ((((n
        >> 8u64) as u8) as u64) << 8u64) | ((n as u8) as u64) == n) by (bit_vector);
}

/// A claim set survives being written as a payload and read back.
pub proof fn lemma_claims_round_trip(c: ClaimsView)
    ensures
        claims_of(claims_bytes(c)) == Some(c),
{
    let p = claims_bytes(c);
    lemma_be8_round_trip(c.expiry);
    assert(p.subrange(9, p.len() as int) =~= encode_utf8(c.subject));
    encode_utf8_valid_utf8(c.subject);
    encode_utf8_decode_utf8(c.subject);
    assert(p[8] == role_tag(c.role));
    assert(p.subrange(0, 8) =~= be8(c.expiry));
}

fn append_bytes(out: &mut Vec<u8>, b: &[u8])
    ensures
        final(out)@ == old(out)@ + b@,
{
    let mut i: usize = 0;
    while i < b.len()
        invariant
            i <= b@.len(),
            out@ == old(out)@ + b@.subrange(0, i as int),
        decreases b@.len() - i,
    {
        out.push(b[i]);
        i = i + 1;
        assert(out@ =~= old(out)@ + b@.subrange(0, i as int));
    }
    assert(b@.subrange(0, b@.len() as int) =~= b@);
}

fn bytes_eq(a: &[u8], b: &[u8]) -> (r: bool)
    ensures
        r == (a@ == b@),
{
    if a.len() != b.len() {
        return false;
    }
    let mut i: usize = 0;
    while i < a.len()
        invariant
            a@.len() == b@.len(),
            i <= a@.len(),
            forall|j: int| 0 <= j < i ==> a@[j] == b@[j],
        decreases a@.len() - i,
    {
        if a[i] != b[i] {
            return false;
        }
        i = i + 1;
    }
    assert(a@ =~= b@);
    true
}

/// Writes a claim set as a payload.
pub fn encode_claims(c: &Claims) -> (r: Vec<u8>)
    ensures
        r@ == claims_bytes(c@),
{
    let n = c.expiry;
    let mut out: Vec<u8> = Vec::new();
    out.push((n >> 56u64) as u8);
    out.push((n >> 48u64) as u8);
    out.push((n >> 40u64) as u8);
    out.push((n >> 32u64) as u8);
    out.push((n >> 24u64) as u8);
    out.push((n >> 16u64) as u8);
    out.push((n >> 8u64) as u8);
    out.push(n as u8);
    let tag: u8 = match c.role {
        Role::Admin => 65,
        Role::Guest => 71,
    };
    out.push(tag);
    append_bytes(&mut out, c.subject.as_str().as_bytes());
    assert(out@ =~= claims_bytes(c@));
    out
}

/// Reads a payload back into a claim set.
pub fn decode_claims(p: &[u8]) -> (r: Option<Claims>)
    ensures
        opt_view(r) == claims_of(p@),
{
    if p.len() < 9 {
        return None;
    }
    let role = if p[8] == 65 {
        Role::Admin
    } else if p[8] == 71 {
        Role::Guest
    } else {
        return None;
    };
    let expiry: u64 = ((p[0] as u64) << 56u64) | ((p[1] as u64) << 48u64) | ((p[2] as u64)
        << 40u64) | ((p[3] as u64) << 32u64) | ((p[4] as u64) << 24u64) | ((p[5] as u64)
        << 16u64) | ((p[6] as u64) << 8u64) | (p[7] as u64);
    let rest = slice_to_vec(slice_subrange(p, 9, p.len()));
    let ghost rest_bytes = rest@;
    match utf8_decode(rest) {
        None => None,
        Some(subject) => {
            proof {
                encode_utf8_decode_utf8(subject@);
            }
            Some(Claims { subject, role, expiry })
        },
    }
}

/// Signs a claim set into a token.
pub fn issue_token(claims: &Claims, secret: &[u8]) -> (r: String)
    ensures
        issued(claims@, secret@, r@),
{
    let payload = encode_claims(claims);
    let tag = hmac_sha256(secret, payload.as_slice());
    let mut t = b64_encode(payload.as_slice());
    proof {
        assert forall|i: int| 0 <= i < t@.len() implies t@[i] != '.' by {
            assert(is_b64_char(t@[i]));
        }
        assert(dot_free(b64_encoded(claims_bytes(claims@))));
    }
    let dot = ".";
    proof {
        reveal_strlit(".");
    }
    t.append(dot);
    let sig = b64_encode(tag.as_slice());
    t.append(sig.as_str());
    assert(t@ =~= signed_token(claims_bytes(claims@), secret@));
    t
}

/// Reads a token under `secret` at time `now`: the claims of a payload that
/// carries its valid tag and has not expired, else nothing.
pub fn parse_token(token: &str, secret: &[u8], now: u64) -> (r: Option<Claims>)
    ensures
        token_outcome(token@, secret@, now, opt_view(r)),
{
    let k = match first_index_of(token, '.') {
        Some(k) => k,
        None => {
            proof {
                assert forall|p: Seq<u8>|
                    #[trigger] signed_token(p, secret@) == token@ && dot_free(
                        b64_encoded(p),
                    ) implies None::<ClaimsView> == live_claims(p, now) by {
                    assert(token@[b64_encoded(p).len() as int] == '.');
                }
            }
            return None;
        },
    };
    let n = token.unicode_len();
    let left = token.substring_char(0, k);
    let right = token.substring_char(k + 1, n);
    proof {
        assert(token@ =~= left@ + seq!['.'] + right@);
        assert forall|p: Seq<u8>|
            #[trigger] signed_token(p, secret@) == token@ && dot_free(b64_encoded(p)) implies left@
            == b64_encoded(p) && right@ == b64_encoded(hmac_sha256_of(secret@, p)) by {
            let e = b64_encoded(p);
            if k < e.len() {
                assert(token@[k as int] == e[k as int]);
            }
            if k > e.len() {
                assert(token@[e.len() as int] == '.');
            }
            assert(left@ =~= e);
            assert(right@ =~= b64_encoded(hmac_sha256_of(secret@, p)));
        }
    }
    let payload = match b64_decode(left) {
        Ok(v) => v,
        Err(_) => {
            proof {
                assert forall|p: Seq<u8>|
                    #[trigger] signed_token(p, secret@) == token@ && dot_free(
                        b64_encoded(p),
                    ) implies None::<ClaimsView> == live_claims(p, now) by {
                    assert(decodes_to(left@, p));
                }
            }
            return None;
        },
    };
    let tag = match b64_decode(right) {
        Ok(v) => v,
        Err(_) => {
            proof {
                assert forall|p: Seq<u8>|
                    #[trigger] signed_token(p, secret@) == token@ && dot_free(
                        b64_encoded(p),
                    ) implies None::<ClaimsView> == live_claims(p, now) by {
                    assert(decodes_to(right@, hmac_sha256_of(secret@, p)));
                }
            }
            return None;
        },
    };
    proof {
        assert(decodes_to(left@, payload@));
        assert(decodes_to(right@, tag@));
    }
    let expected = hmac_sha256(secret, payload.as_slice());
    if !bytes_eq(tag.as_slice(), expected.as_slice()) {
        proof {
            assert forall|p: Seq<u8>|
                #[trigger] signed_token(p, secret@) == token@ && dot_free(
                    b64_encoded(p),
                ) implies None::<ClaimsView> == live_claims(p, now) by {
                assert(decodes_to(left@, p));
                assert(decodes_to(right@, hmac_sha256_of(secret@, p)));
            }
        }
        return None;
    }
    proof {
        assert(signed_token(payload@, secret@) == token@);
        assert forall|p: Seq<u8>|
            #[trigger] signed_token(p, secret@) == token@ && dot_free(b64_encoded(p)) implies p
            == payload@ by {
            assert(decodes_to(left@, p));
        }
    }
    match decode_claims(payload.as_slice()) {
        None => None,
        Some(c) => {
            if c.expiry > now {
                Some(c)
            } else {
                None
            }
        },
    }
}

/// Resolves a request's session cookie to a principal: no cookie, or a
/// token that does not read, is a guest; an Admin claim is an Admin.
pub fn resolve(cookie: Option<&str>, secret: &[u8], now: u64) -> (r: User)
    ensures
        cookie is None ==> is_guest(r),
        cookie matches Some(t) ==> resolves_to(t@, secret@, now, r.username@, r.role),
{
    match cookie {
        None => User::guest(),
        Some(t) => {
            let claims = parse_token(t, secret, now);
            let ghost o = opt_view(claims);
            let r = match claims {
                None => User::guest(),
                Some(c) => User { username: c.subject, role: c.role },
            };
            assert(token_outcome(t@, secret@, now, o) && (r.username@, r.role) == principal_of(o));
            assert(resolves_to(t@, secret@, now, r.username@, r.role));
            r
        },
    }
}

/// A logged-in admin: the principal and its session token.
#[derive(Debug, Clone, PartialEq, Eq)]
pub struct Session {
    pub user: User,
    pub token: String,
}

/// The claims of a session opened at `now` for `name`.
pub open spec fn session_claims(name: Seq<char>, now: u64) -> ClaimsView {
    ClaimsView { subject: name, role: Role::Admin, expiry: (now + TOKEN_TTL) as u64 }
}

/// The login decision: on an exact match of the configured credentials an
/// Admin session whose token lives one day from `now`, else `Unauthorized`.
pub fn login(req: &MeRequest, admin_user: &str, admin_pass: &str, secret: &[u8], now: u64) -> (r:
    Result<Session, ServiceError>)
    requires
        now <= u64::MAX - TOKEN_TTL,
    ensures
        (req.user@ == admin_user@ && req.password@ == admin_pass@) <==> r is Ok,
        r matches Ok(s) ==> s.user.username@ == req.user@ && s.user.role == Role::Admin && issued(
            session_claims(req.user@, now),
            secret@,
            s.token@,
        ),
        r is Err ==> r == Err::<Session, ServiceError>(ServiceError::Unauthorized),
{
    let user = authenticate(req, admin_user, admin_pass);
    if !require_admin(&user) {
        return Err(ServiceError::Unauthorized);
    }
    let claims = Claims { subject: req.user.clone(), role: Role::Admin, expiry: now + TOKEN_TTL };
    let token = issue_token(&claims, secret);
    Ok(Session { user, token })
}

/// A token issued for unexpired claims reads back as exactly those claims:
/// the caller resolves to the claimed name and role, so an Admin token
/// passes the admin check.
pub proof fn lemma_issued_token_resolves(
    c: ClaimsView,
    key: Seq<u8>,
    t: Seq<char>,
    now: u64,
    name: Seq<char>,
    role: Role,
)
    requires
        issued(c, key, t),
        now < c.expiry,
        resolves_to(t, key, now, name, role),
    ensures
        name == c.subject,
        role == c.role,
{
    let o = choose|o: Option<ClaimsView>| #[trigger]
        token_outcome(t, key, now, o) && (name, role) == principal_of(o);
    lemma_claims_round_trip(c);
    assert(signed_token(claims_bytes(c), key) == t);
}

/// An expired token resolves to a guest, though its tag is valid.
pub proof fn lemma_expired_token_is_guest(
    c: ClaimsView,
    key: Seq<u8>,
    t: Seq<char>,
    now: u64,
    name: Seq<char>,
    role: Role,
)
    requires
        issued(c, key, t),
        c.expiry <= now,
        resolves_to(t, key, now, name, role),
    ensures
        name.len() == 0,
        role == Role::Guest,
{
    let o = choose|o: Option<ClaimsView>| #[trigger]
        token_outcome(t, key, now, o) && (name, role) == principal_of(o);
    lemma_claims_round_trip(c);
    assert(signed_token(claims_bytes(c), key) == t);
}

/// A token that is not the signed form of any payload under `key` (one
/// whose payload or tag was altered) resolves to a guest.
pub proof fn lemma_forged_token_is_guest(
    t: Seq<char>,
    key: Seq<u8>,
    now: u64,
    name: Seq<char>,
    role: Role,
)
    requires
        forall|p: Seq<u8>| #[trigger] signed_token(p, key) != t,
        resolves_to(t, key, now, name, role),
    ensures
        name.len() == 0,
        role == Role::Guest,
{
    let o = choose|o: Option<ClaimsView>| #[trigger]
        token_outcome(t, key, now, o) && (name, role) == principal_of(o);
    if o is Some {
        let p = choose|p: Seq<u8>| #[trigger] signed_token(p, key) == t && live_claims(p, now) == o;
        assert(signed_token(p, key) != t);
    }
}

/// The session that `login` opens is an Admin principal for the whole day
/// that follows, and a request without the cookie is a guest and fails the
/// admin check.
pub proof fn lemma_login_session_admits(
    name: Seq<char>,
    key: Seq<u8>,
    issued_at: u64,
    t: Seq<char>,
    now: u64,
    got_name: Seq<char>,
    got_role: Role,
    guest: User,
)
    requires
        issued_at <= u64::MAX - TOKEN_TTL,
        issued(session_claims(name, issued_at), key, t),
        now < issued_at + TOKEN_TTL,
        resolves_to(t, key, now, got_name, got_role),
        is_guest(guest),
    ensures
        got_role == Role::Admin,
        got_name == name,
        guest.role != Role::Admin,
{
    lemma_issued_token_resolves(session_claims(name, issued_at), key, t, now, got_name, got_role);
}

} // verus!
