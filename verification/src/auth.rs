//! Session authentication: session tokens, the session cookie, which paths
//! need a session, session expiry, and the per-address login lockout.
use crate::clock::{elapsed, elapsed_ms};
use crate::text::{chars_of, chars_start_with, string_from_chars, trim, trim_bounds};
use rand::Rng;
use vstd::prelude::*;
use vstd::string::StringExecFns;

verus! {

/// Failed logins from one address after which that address is locked out.
pub const MAX_ATTEMPTS: u32 = 5;

/// Name of the session cookie.
pub const COOKIE_NAME: &'static str = "duka_session";

// ── Session tokens ───────────────────────────────────────────────────────────

/// Lowercase hexadecimal digit for `n` (below 16).
pub open spec fn hex_digit(n: u8) -> char {
    if n < 10 {
        (n + 48) as char
    } else {
        (n + 87) as char
    }
}

/// Lowercase hexadecimal text of `bytes`, two digits per byte, high nibble first.
pub open spec fn hex_chars(bytes: Seq<u8>) -> Seq<char>
    decreases bytes.len(),
{
    if bytes.len() == 0 {
        Seq::empty()
    } else {
        hex_chars(bytes.drop_last()) + seq![
            hex_digit(bytes.last() / 16),
            hex_digit(bytes.last() % 16),
        ]
    }
}

/// Whether `c` is a lowercase hexadecimal digit.
pub open spec fn is_lower_hex(c: char) -> bool {
    ('0' <= c <= '9') || ('a' <= c <= 'f')
}

/// The hexadecimal text of `n` bytes has `2 n` lowercase hexadecimal digits.
pub proof fn lemma_hex_chars_shape(bytes: Seq<u8>)
    ensures
        hex_chars(bytes).len() == 2 * bytes.len(),
        forall|i: int| 0 <= i < hex_chars(bytes).len() ==> is_lower_hex(#[trigger] hex_chars(bytes)[i]),
    decreases bytes.len(),
{
    if bytes.len() > 0 {
        lemma_hex_chars_shape(bytes.drop_last());
    }
}

/// Each byte becomes two digits from `0123456789abcdef`: the digit for its
/// high nibble, then the one for its low nibble.
pub proof fn lemma_hex_chars_digits(bytes: Seq<u8>)
    ensures
        hex_chars(bytes).len() == 2 * bytes.len(),
        forall|k: int|
            0 <= k < bytes.len() ==> hex_chars(bytes)[2 * k] == "0123456789abcdef"@[(#[trigger] bytes[k]
                / 16) as int] && hex_chars(bytes)[2 * k + 1] == "0123456789abcdef"@[(bytes[k] % 16) as int],
    decreases bytes.len(),
{
    reveal_strlit("0123456789abcdef");
    lemma_hex_chars_shape(bytes);
    if bytes.len() > 0 {
        let init = bytes.drop_last();
        lemma_hex_chars_digits(init);
        let h = hex_chars(bytes);
        assert forall|k: int| 0 <= k < bytes.len() implies h[2 * k] == "0123456789abcdef"@[
            (#[trigger] bytes[k] / 16) as int] && h[2 * k + 1] == "0123456789abcdef"@[(bytes[k] % 16) as int] by {
            if k < init.len() {
                assert(bytes[k] == init[k]);
                assert(h[2 * k] == hex_chars(init)[2 * k]);
                assert(h[2 * k + 1] == hex_chars(init)[2 * k + 1]);
            } else {
                let b = bytes.last();
                assert(b == bytes[k]);
                let hi = b / 16;
                let lo = b % 16;
                assert(h[2 * k] == hex_digit(hi));
                assert(h[2 * k + 1] == hex_digit(lo));
                assert(hi < 16 && lo < 16);
            }
        }
    }
}

fn hex_digit_char(n: u8) -> (c: char)
    requires
        n < 16,
    ensures
        c == hex_digit(n),
{
    if n < 10 {
        (n + 48) as char
    } else {
        (n + 87) as char
    }
}

/// Lowercase hexadecimal encoding of `bytes`, two digits per byte.
pub fn hex_encode(bytes: &[u8]) -> (s: String)
    ensures
        s@ == hex_chars(bytes@),
{
    let mut out: Vec<char> = Vec::new();
    let mut i: usize = 0;
    assert(bytes@.subrange(0, 0) =~= Seq::<u8>::empty());
    while i < bytes.len()
        invariant
            i <= bytes@.len(),
            out@ == hex_chars(bytes@.subrange(0, i as int)),
        decreases bytes@.len() - i,
    {
        let b = bytes[i];
        out.push(hex_digit_char(b / 16));
        out.push(hex_digit_char(b % 16));
        assert(bytes@.subrange(0, i + 1).drop_last() =~= bytes@.subrange(0, i as int));
        i = i + 1;
        assert(out@ =~= hex_chars(bytes@.subrange(0, i as int)));
    }
    assert(bytes@.subrange(0, bytes@.len() as int) =~= bytes@);
    string_from_chars(out.as_slice())
}

/// Calls `rand::thread_rng().gen::<[u8; 16]>()`: sixteen bytes from the
/// thread-local cryptographically secure generator. Nothing is claimed of
/// their values.
#[verifier::external_body]
fn random_token_bytes() -> [u8; 16] {
    rand::thread_rng().gen()
}

/// A fresh session token: 16 random bytes as 32 lowercase hexadecimal digits.
pub fn generate_token() -> (token: String)
    ensures
        exists|b: Seq<u8>| b.len() == 16 && token@ == hex_chars(b),
        token@.len() == 32,
        forall|i: int| 0 <= i < token@.len() ==> is_lower_hex(#[trigger] token@[i]),
{
    let bytes = random_token_bytes();
    let token = hex_encode(bytes.as_slice());
    proof {
        lemma_hex_chars_shape(bytes@);
    }
    token
}

// ── Session cookie ───────────────────────────────────────────────────────────

/// What the session cookie's value follows: `duka_session=`.
pub open spec fn session_prefix() -> Seq<char> {
    "duka_session="@
}

/// The parts of a cookie header, split at each `;` (as `str::split(';')`).
pub open spec fn cookie_parts(s: Seq<char>) -> Seq<Seq<char>>
    decreases s.len(),
{
    if s.len() == 0 {
        seq![Seq::empty()]
    } else {
        let parts = cookie_parts(s.drop_last());
        if s.last() == ';' {
            parts.push(Seq::empty())
        } else {
            parts.update(parts.len() - 1, parts.last().push(s.last()))
        }
    }
}

/// The session token that one cookie part carries: the trimmed part with the
/// `duka_session=` prefix removed, when it has that prefix.
pub open spec fn session_value(part: Seq<char>) -> Option<Seq<char>> {
    let t = trim(part);
    if t.len() >= session_prefix().len() && t.subrange(0, session_prefix().len() as int)
        == session_prefix() {
        Some(t.subrange(session_prefix().len() as int, t.len() as int))
    } else {
        None
    }
}

/// The token of the first part that carries one.
pub open spec fn first_session(parts: Seq<Seq<char>>) -> Option<Seq<char>>
    decreases parts.len(),
{
    if parts.len() == 0 {
        None
    } else {
        match first_session(parts.drop_last()) {
            Some(t) => Some(t),
            None => session_value(parts.last()),
        }
    }
}

/// The session token in a cookie header.
pub open spec fn session_token(cookie: Seq<char>) -> Option<Seq<char>> {
    first_session(cookie_parts(cookie))
}

/// Every cookie header has at least one part.
proof fn lemma_cookie_parts_nonempty(s: Seq<char>)
    ensures
        cookie_parts(s).len() >= 1,
    decreases s.len(),
{
    if s.len() > 0 {
        lemma_cookie_parts_nonempty(s.drop_last());
    }
}

/// Splitting a longer prefix of a header keeps every finished part of a
/// shorter one.
proof fn lemma_cookie_parts_extend(s: Seq<char>, j: int, n: int)
    requires
        0 <= j <= n <= s.len(),
    ensures
        cookie_parts(s.subrange(0, j)).len() <= cookie_parts(s.subrange(0, n)).len(),
        forall|k: int|
            0 <= k < cookie_parts(s.subrange(0, j)).len() - 1 ==> cookie_parts(s.subrange(0, j))[k]
                == cookie_parts(s.subrange(0, n))[k],
    decreases n - j,
{
    if n > j {
        lemma_cookie_parts_extend(s, j, n - 1);
        let prev = s.subrange(0, n - 1);
        let cur = s.subrange(0, n);
        assert(cur.drop_last() =~= prev);
        lemma_cookie_parts_nonempty(prev);
    }
}

/// A token found among the first parts stays the first token when more parts follow.
proof fn lemma_first_session_extend(p: Seq<Seq<char>>, q: Seq<Seq<char>>)
    requires
        p.len() <= q.len(),
        forall|k: int| 0 <= k < p.len() ==> p[k] == q[k],
        first_session(p) is Some,
    ensures
        first_session(q) == first_session(p),
    decreases q.len(),
{
    if q.len() == p.len() {
        assert(p =~= q);
    } else {
        lemma_first_session_extend(p, q.drop_last());
    }
}

/// A token found in the finished parts of a prefix of the header is the token
/// of the whole header.
proof fn lemma_first_session_prefix(s: Seq<char>, n: int, p: Seq<Seq<char>>)
    requires
        0 < n <= s.len(),
        p == cookie_parts(s.subrange(0, n)).drop_last(),
        first_session(p) is Some,
    ensures
        first_session(cookie_parts(s)) == first_session(p),
{
    lemma_cookie_parts_extend(s, n, s.len() as int);
    lemma_cookie_parts_nonempty(s.subrange(0, n));
    assert(s.subrange(0, s.len() as int) =~= s);
    lemma_first_session_extend(p, cookie_parts(s));
}

/// Reads the session token from a `Cookie` header value: the first `;`-separated
/// part that, once trimmed, starts with `duka_session=` gives the rest of that
/// part.
pub fn session_from_cookie(cookie: &str) -> (r: Option<String>)
    ensures
        r is None <==> session_token(cookie@) is None,
        r matches Some(t) ==> t@ == session_token(cookie@)->Some_0,
{
    let cs = chars_of(cookie);
    let prefix = chars_of("duka_session=");
    let len = cs.len();
    let mut part_start: usize = 0;
    let mut i: usize = 0;
    let ghost mut done: Seq<Seq<char>> = Seq::empty();
    assert(cs@.subrange(0, 0) =~= Seq::<char>::empty());
    while i < len
        invariant
            len == cs@.len(),
            cs@ == cookie@,
            prefix@ == session_prefix(),
            part_start <= i <= len,
            cookie_parts(cs@.subrange(0, i as int)) == done.push(
                cs@.subrange(part_start as int, i as int),
            ),
            first_session(done) is None,
        decreases len - i,
    {
        let ghost before = cs@.subrange(0, i as int);
        let ghost after = cs@.subrange(0, i + 1);
        assert(after.drop_last() =~= before);
        proof {
            lemma_cookie_parts_nonempty(before);
        }
        if cs[i] == ';' {
            let ghost part = cs@.subrange(part_start as int, i as int);
            assert(after.last() == ';');
            assert(cookie_parts(after) == cookie_parts(before).push(Seq::empty()));
            assert(done.push(part).drop_last() =~= done);
            let (a, b) = trim_bounds(cs.as_slice(), part_start, i);
            if chars_start_with(cs.as_slice(), a, prefix.as_slice()) && a + prefix.len() <= b {
                let v = vstd::slice::slice_subrange(cs.as_slice(), a + prefix.len(), b);
                assert(cs@.subrange(a as int, b as int).subrange(0, prefix@.len() as int)
                    =~= cs@.subrange(a as int, a + prefix@.len()));
                assert(cs@.subrange(a as int, b as int).subrange(
                    prefix@.len() as int,
                    (b - a) as int,
                ) =~= v@);
                assert(cookie_parts(cs@) == cookie_parts(cs@.subrange(0, len as int))) by {
                    assert(cs@.subrange(0, len as int) =~= cs@);
                }
                assert(session_value(part) == Some(v@));
                assert(cookie_parts(after) == done.push(part).push(Seq::empty()));
                assert(cookie_parts(after).drop_last() =~= done.push(part));
                assert(first_session(done.push(part)) == Some(v@));
                proof {
                    lemma_first_session_prefix(cs@, i as int + 1, done.push(part));
                }
                return Some(string_from_chars(v));
            }
            proof {
                if b - a >= prefix@.len() {
                    assert(cs@.subrange(a as int, b as int).subrange(0, prefix@.len() as int)
                        =~= cs@.subrange(a as int, a + prefix@.len()));
                }
                done = done.push(part);
            }
            part_start = i + 1;
            assert(cs@.subrange(part_start as int, i + 1) =~= Seq::<char>::empty());
            assert(cookie_parts(after) =~= done.push(cs@.subrange(part_start as int, i + 1)));
        } else {
            assert(cs@.subrange(part_start as int, i + 1) =~= cs@.subrange(
                part_start as int,
                i as int,
            ).push(cs@[i as int]));
            assert(cookie_parts(after) =~= done.push(cs@.subrange(part_start as int, i + 1)));
        }
        i = i + 1;
    }
    assert(cs@.subrange(0, len as int) =~= cs@);
    let ghost part = cs@.subrange(part_start as int, len as int);
    assert(done.push(part).drop_last() =~= done);
    let (a, b) = trim_bounds(cs.as_slice(), part_start, len);
    if chars_start_with(cs.as_slice(), a, prefix.as_slice()) && a + prefix.len() <= b {
        let v = vstd::slice::slice_subrange(cs.as_slice(), a + prefix.len(), b);
        assert(cs@.subrange(a as int, b as int).subrange(0, prefix@.len() as int) =~= cs@.subrange(
            a as int,
            a + prefix@.len(),
        ));
        assert(cs@.subrange(a as int, b as int).subrange(prefix@.len() as int, (b - a) as int)
            =~= v@);
        assert(session_value(part) == Some(v@));
        assert(first_session(done.push(part)) == Some(v@));
        return Some(string_from_chars(v));
    }
    proof {
        if b - a >= prefix@.len() {
            assert(cs@.subrange(a as int, b as int).subrange(0, prefix@.len() as int)
                =~= cs@.subrange(a as int, a + prefix@.len()));
        }
    }
    None
}

/// Whether `s` contains no `;`.
pub open spec fn no_semicolon(s: Seq<char>) -> bool {
    forall|i: int| 0 <= i < s.len() ==> s[i] != ';'
}

/// A header without `;` is one part.
proof fn lemma_cookie_parts_single(s: Seq<char>)
    requires
        no_semicolon(s),
    ensures
        cookie_parts(s) == seq![s],
    decreases s.len(),
{
    if s.len() == 0 {
        assert(s =~= Seq::<char>::empty());
        assert(cookie_parts(s) =~= seq![s]);
    } else {
        let d = s.drop_last();
        assert(no_semicolon(d)) by {
            assert forall|i: int| 0 <= i < d.len() implies d[i] != ';' by {
                assert(d[i] == s[i]);
            }
        }
        lemma_cookie_parts_single(d);
        assert(s.last() != ';');
        assert(d.push(s.last()) =~= s);
        assert(seq![d].update(0, d.push(s.last())) =~= seq![s]);
    }
}

/// The `Set-Cookie` value that opens a session.
pub open spec fn session_cookie_chars(token: Seq<char>, secure: bool) -> Seq<char> {
    "duka_session="@ + token + "; HttpOnly; SameSite=Strict; Path=/"@ + (if secure {
        "; Secure"@
    } else {
        Seq::empty()
    })
}

/// The `Set-Cookie` value that opens a session with `token`; `secure` adds the
/// `Secure` attribute.
pub fn session_cookie(token: &str, secure: bool) -> (s: String)
    ensures
        s@ == session_cookie_chars(token@, secure),
{
    let mut s = String::from_str("duka_session=");
    s.append(token);
    s.append("; HttpOnly; SameSite=Strict; Path=/");
    if secure {
        s.append("; Secure");
    }
    proof {
        assert(Seq::<char>::empty() + Seq::<char>::empty() =~= Seq::<char>::empty());
    }
    assert(s@ =~= session_cookie_chars(token@, secure));
    s
}

/// The `Set-Cookie` value that ends a session: an empty, already expired cookie.
pub fn logout_cookie() -> (s: String)
    ensures
        s@ == "duka_session=; HttpOnly; SameSite=Strict; Path=/; Max-Age=0; Secure"@,
{
    String::from_str("duka_session=; HttpOnly; SameSite=Strict; Path=/; Max-Age=0; Secure")
}

/// A session opened with a token (without `;`, not ending in whitespace) is
/// recognised when the browser sends the cookie back: reading the session
/// from the cookie's first part gives the token again.
pub proof fn lemma_session_cookie_roundtrip(token: Seq<char>, secure: bool)
    requires
        no_semicolon(token),
        token.len() > 0 ==> !crate::text::is_whitespace(token.last()),
    ensures
        session_token(session_cookie_chars(token, secure)) == Some(token),
        session_token(session_prefix() + token) == Some(token),
{
    reveal_strlit("duka_session=");
    reveal_strlit("; HttpOnly; SameSite=Strict; Path=/");
    reveal_strlit("; Secure");
    let p = session_prefix();
    let a = p + token;
    assert(no_semicolon(a)) by {
        assert forall|i: int| 0 <= i < a.len() implies a[i] != ';' by {
            if i >= p.len() {
                assert(a[i] == token[i - p.len()]);
            }
        }
    }
    assert(a.len() > 0 && !crate::text::is_whitespace(a[0]));
    assert(crate::text::trim_start(a) == a);
    assert(!crate::text::is_whitespace(a.last())) by {
        if token.len() == 0 {
            assert(a =~= p);
        } else {
            assert(a.last() == token.last());
        }
    }
    assert(trim(a) == a);
    assert(a.subrange(0, p.len() as int) =~= p);
    assert(a.subrange(p.len() as int, a.len() as int) =~= token);
    assert(session_value(a) == Some(token));
    lemma_cookie_parts_single(a);
    assert(seq![a].drop_last() =~= Seq::<Seq<char>>::empty());
    assert(first_session(Seq::<Seq<char>>::empty()) is None);
    assert(seq![a].last() == a);
    assert(first_session(seq![a]) == Some(token));
    // The whole prefix + token is itself a header.
    assert(session_token(a) == Some(token));
    assert(a =~= session_prefix() + token);
    let c = session_cookie_chars(token, secure);
    let k = a.len() as int;
    assert(c.subrange(0, k) =~= a);
    assert(c[k] == ';');
    let ck = c.subrange(0, k + 1);
    assert(ck.drop_last() =~= a);
    assert(cookie_parts(ck) == seq![a].push(Seq::empty()));
    lemma_cookie_parts_extend(c, k + 1, c.len() as int);
    assert(c.subrange(0, c.len() as int) =~= c);
    lemma_cookie_parts_nonempty(c);
    lemma_first_session_extend(seq![a], cookie_parts(c));
}

/// The session that login opens is recognised on later requests: for every
/// token that `generate_token` can produce, reading the session from the
/// cookie that login sets gives the token back.
pub proof fn lemma_login_cookie_recognised(bytes: Seq<u8>, secure: bool)
    ensures
        session_token(session_cookie_chars(hex_chars(bytes), secure)) == Some(hex_chars(bytes)),
{
    let token = hex_chars(bytes);
    lemma_hex_chars_shape(bytes);
    assert(no_semicolon(token)) by {
        assert forall|i: int| 0 <= i < token.len() implies token[i] != ';' by {
            assert(is_lower_hex(token[i]));
        }
    }
    if token.len() > 0 {
        assert(is_lower_hex(token[token.len() - 1]));
    }
    lemma_session_cookie_roundtrip(token, secure);
}

/// Parts are looked at in order and none is skipped: the first part that
/// carries a session decides, so a part appended after parts without a session
/// decides by itself, and appending parts never changes a session already found.
pub proof fn lemma_first_session_append(parts: Seq<Seq<char>>, part: Seq<char>)
    ensures
        first_session(parts) is None ==> first_session(parts.push(part)) == session_value(part),
        first_session(parts) is Some ==> first_session(parts.push(part)) == first_session(parts),
{
    assert(parts.push(part).drop_last() =~= parts);
    assert(parts.push(part).last() == part);
}

/// Splitting at `;`: a header followed by `;` and a piece without `;` has the
/// parts of the header and then that piece.
pub proof fn lemma_cookie_parts_append(s: Seq<char>, piece: Seq<char>)
    requires
        no_semicolon(piece),
    ensures
        cookie_parts(s + seq![';'] + piece) == cookie_parts(s).push(piece),
    decreases piece.len(),
{
    let whole = s + seq![';'] + piece;
    if piece.len() == 0 {
        assert(whole =~= s.push(';'));
        assert(whole.drop_last() =~= s);
        assert(piece =~= Seq::<char>::empty());
    } else {
        let shorter = piece.drop_last();
        assert(no_semicolon(shorter)) by {
            assert forall|i: int| 0 <= i < shorter.len() implies shorter[i] != ';' by {
                assert(shorter[i] == piece[i]);
            }
        }
        lemma_cookie_parts_append(s, shorter);
        assert(whole.drop_last() =~= s + seq![';'] + shorter);
        assert(whole.last() == piece.last());
        assert(piece.last() != ';');
        let ps = cookie_parts(s).push(shorter);
        assert(shorter.push(piece.last()) =~= piece);
        assert(ps.update(ps.len() - 1, ps.last().push(whole.last())) =~= cookie_parts(s).push(
            piece,
        ));
    }
}

/// A cookie part `duka_session=<token>`, with any leading spaces as browsers
/// send after `;`, carries exactly the token (when the token has no trailing
/// whitespace).
pub proof fn lemma_session_part_value(token: Seq<char>)
    requires
        token.len() > 0 ==> !crate::text::is_whitespace(token.last()),
    ensures
        session_value("duka_session="@ + token) == Some(token),
        session_value(seq![' '] + "duka_session="@ + token) == Some(token),
{
    reveal_strlit("duka_session=");
    let x = "duka_session="@ + token;
    let padded = seq![' '] + x;
    assert(seq![' '] + "duka_session="@ + token =~= padded);
    assert(padded.drop_first() =~= x);
    assert(x.len() > 0 && !crate::text::is_whitespace(x[0]));
    assert(crate::text::trim_start(x) == x);
    assert(crate::text::trim_start(padded) == x);
    assert(!crate::text::is_whitespace(x.last())) by {
        if token.len() == 0 {
            assert(x =~= "duka_session="@);
        } else {
            assert(x.last() == token.last());
        }
    }
    assert(trim(x) == x);
    assert(trim(padded) == x);
    assert(x.subrange(0, 13) =~= "duka_session="@);
    assert(x.subrange(13, x.len() as int) =~= token);
}

/// The session cookie is found wherever it stands in the header: after any
/// cookies that carry no session, `; duka_session=<token>` gives the token.
pub proof fn lemma_session_found_anywhere(cookie: Seq<char>, token: Seq<char>)
    requires
        session_token(cookie) is None,
        no_semicolon(token),
        token.len() > 0 ==> !crate::text::is_whitespace(token.last()),
    ensures
        session_token(cookie + seq![';'] + (seq![' '] + "duka_session="@ + token)) == Some(token),
{
    reveal_strlit("duka_session=");
    let piece = seq![' '] + "duka_session="@ + token;
    assert(no_semicolon(piece)) by {
        assert forall|i: int| 0 <= i < piece.len() implies piece[i] != ';' by {
            if i >= 14 {
                assert(piece[i] == token[i - 14]);
            }
        }
    }
    lemma_cookie_parts_append(cookie, piece);
    lemma_first_session_append(cookie_parts(cookie), piece);
    lemma_session_part_value(token);
}

// ── Request admission ────────────────────────────────────────────────────────

/// Paths reachable without a session: everything under `/login`, and `/logout`.
pub open spec fn is_public_path_spec(path: Seq<char>) -> bool {
    ||| (path.len() >= "/login"@.len() && path.subrange(0, "/login"@.len() as int) == "/login"@)
    ||| path == "/logout"@
}

/// The paths served without a session are exactly those starting with
/// `/login` (the login page and anything under it) and `/logout` itself.
pub proof fn lemma_public_paths(path: Seq<char>)
    ensures
        is_public_path_spec(path) <==> ((path.len() >= 6 && path.subrange(0, 6) == seq![
            '/',
            'l',
            'o',
            'g',
            'i',
            'n',
        ]) || path == seq!['/', 'l', 'o', 'g', 'o', 'u', 't']),
{
    reveal_strlit("/login");
    reveal_strlit("/logout");
    assert("/login"@ =~= seq!['/', 'l', 'o', 'g', 'i', 'n']);
    assert("/logout"@ =~= seq!['/', 'l', 'o', 'g', 'o', 'u', 't']);
}

/// Whether `path` may be served without a session.
pub fn is_public_path(path: &str) -> (r: bool)
    ensures
        r == is_public_path_spec(path@),
{
    let p = chars_of(path);
    let login = chars_of("/login");
    let logout = chars_of("/logout");
    if chars_start_with(p.as_slice(), 0, login.as_slice()) {
        assert(p@.subrange(0, login@.len() as int) == "/login"@);
        return true;
    }
    let is_logout = p.len() == logout.len() && chars_start_with(p.as_slice(), 0, logout.as_slice());
    assert(is_logout ==> p@.subrange(0, p@.len() as int) =~= p@);
    assert(p@ == "/logout"@ ==> p@.subrange(0, logout@.len() as int) =~= p@);
    is_logout
}

/// A session opened at `created_at_ms` is still valid at `now_ms` while less
/// than `ttl_ms` has elapsed.
pub fn session_is_fresh(created_at_ms: u64, now_ms: u64, ttl_ms: u64) -> (r: bool)
    ensures
        r == (elapsed(created_at_ms, now_ms) < ttl_ms),
{
    elapsed_ms(created_at_ms, now_ms) < ttl_ms
}

// ── Login ────────────────────────────────────────────────────────────────────

/// Credentials submitted on the login form.
#[derive(Debug)]
pub struct LoginForm {
    pub username: String,
    pub password: String,
}

impl LoginForm {
    /// Whether the form carries exactly the configured username and password.
    pub fn credentials_match(&self, username: &String, password: &String) -> (r: bool)
        ensures
            r == (self.username@ == username@ && self.password@ == password@),
    {
        self.username == *username && self.password == *password
    }
}

/// What a login attempt leads to.
#[derive(Debug, Clone, Copy, PartialEq, Eq, Structural)]
pub enum LoginOutcome {
    /// The address is locked out; the credentials were not looked at.
    LockedOut,
    /// The credentials matched; a session opens.
    Accepted,
    /// The credentials did not match; `locked` when this failure locks the address out.
    Rejected { locked: bool },
}

/// Outcome of a login attempt from an address with `failures` failed attempts
/// so far, and that address's failure count afterwards.
pub open spec fn login_step(failures: u32, credentials_ok: bool) -> (LoginOutcome, u32) {
    if failures >= MAX_ATTEMPTS {
        (LoginOutcome::LockedOut, failures)
    } else if credentials_ok {
        (LoginOutcome::Accepted, 0)
    } else {
        (
            LoginOutcome::Rejected { locked: failures + 1 >= MAX_ATTEMPTS },
            (failures + 1) as u32,
        )
    }
}

/// Decides a login attempt: an address with `MAX_ATTEMPTS` failures is refused
/// outright; matching credentials clear the address's failures; others count
/// one more failure.
pub fn login_attempt(failures: u32, credentials_ok: bool) -> (r: (LoginOutcome, u32))
    ensures
        r == login_step(failures, credentials_ok),
{
    if failures >= MAX_ATTEMPTS {
        (LoginOutcome::LockedOut, failures)
    } else if credentials_ok {
        (LoginOutcome::Accepted, 0)
    } else {
        let count = failures + 1;
        (LoginOutcome::Rejected { locked: count >= MAX_ATTEMPTS }, count)
    }
}

/// One login attempt, spelled out: an address with five or more failures is
/// refused and keeps its count; otherwise matching credentials are accepted
/// and clear the count, and wrong ones are rejected and count one more
/// failure, locking the address when that makes five.
pub proof fn lemma_login_attempt_effect(failures: u32, credentials_ok: bool)
    ensures
        failures >= 5 ==> login_step(failures, credentials_ok) == (
            LoginOutcome::LockedOut,
            failures,
        ),
        failures < 5 && credentials_ok ==> login_step(failures, credentials_ok) == (
            LoginOutcome::Accepted,
            0u32,
        ),
        failures < 5 && !credentials_ok ==> login_step(failures, credentials_ok) == (
            LoginOutcome::Rejected { locked: failures + 1 >= 5 },
            (failures + 1) as u32,
        ),
{
}

/// A cookie part carries a session only when, once trimmed, it starts with
/// `duka_session=`.
pub proof fn lemma_session_value_needs_prefix(part: Seq<char>)
    ensures
        session_value(part) is Some <==> (trim(part).len() >= "duka_session="@.len()
            && trim(part).subrange(0, "duka_session="@.len() as int) == "duka_session="@),
        session_value(part) matches Some(t) ==> trim(part) == "duka_session="@ + t,
{
    if session_value(part) is Some {
        let tp = trim(part);
        let n = "duka_session="@.len() as int;
        assert(tp =~= tp.subrange(0, n) + tp.subrange(n, tp.len() as int));
    }
}

/// Failure count of an address after `n` rejected attempts from a clean start.
pub open spec fn failures_after_rejections(n: nat) -> u32
    decreases n,
{
    if n == 0 {
        0
    } else {
        login_step(failures_after_rejections((n - 1) as nat), false).1
    }
}

/// After `MAX_ATTEMPTS` rejected attempts an address is locked out for good:
/// further attempts, even with the right credentials, are refused and leave
/// the count unchanged; before that, each rejection counts one failure.
pub proof fn lemma_login_lockout(n: nat, credentials_ok: bool)
    ensures
        failures_after_rejections(n) == (if n < MAX_ATTEMPTS {
            n
        } else {
            MAX_ATTEMPTS as nat
        }),
        n >= MAX_ATTEMPTS ==> login_step(failures_after_rejections(n), credentials_ok) == (
            LoginOutcome::LockedOut,
            failures_after_rejections(n),
        ),
    decreases n,
{
    if n > 0 {
        lemma_login_lockout((n - 1) as nat, credentials_ok);
    }
}

} // verus!
