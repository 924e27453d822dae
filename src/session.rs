//! The pairing handshake: a short code is issued, and a client that presents it
//! with a username receives a fresh session token.
//!
//! Codes do not expire and are not consumed: every exchange of a known code
//! mints a new token.
use vstd::prelude::*;
use crate::ids::{generate_code, is_code_char, now_rfc3339, random_uuid};
use crate::store::{
    code_for, code_keys, insert_new_token, token_keys, upsert_code, AuthCode, AuthCodeView,
    MetadataStore, TokenRecord, TokenView,
};

verus! {

/// Number of characters in a pairing code.
pub const CODE_LENGTH: usize = 6;

/// Advisory lifetime of a code, in seconds. It is reported, not enforced.
pub const CODE_EXPIRES_IN: u64 = 60;

/// The answer to a code request.
#[derive(Clone, Debug)]
pub struct CodeResponse {
    pub code: String,
    pub ip: String,
    pub expires_in: u64,
}

/// A client's request to exchange a code for a token.
#[derive(Clone, Debug)]
pub struct AuthRequest {
    pub code: String,
    pub username: String,
}

/// The token granted by an exchange.
#[derive(Clone, Debug)]
pub struct AuthResponse {
    pub token: String,
}

/// Why an exchange granted no token.
#[derive(Clone, Copy, Debug, PartialEq, Eq, Structural)]
pub enum AuthError {
    /// The code was never issued.
    InvalidCode,
    /// The freshly drawn token had already been issued, so it was not stored.
    TokenCollision,
}

/// The address recorded with a code: the server's own when it is known, else
/// the loopback address.
pub open spec fn bound_address(address: Option<Seq<char>>) -> Seq<char> {
    match address {
        Some(a) => a,
        None => "127.0.0.1"@,
    }
}

/// Records `code`, bound to the server's address, and answers with it.
pub fn issue_code(store: &mut MetadataStore, code: String, address: Option<String>, now: String) -> (r:
    CodeResponse)
    requires
        old(store).wf(),
    ensures
        final(store).wf(),
        r.code@ == code@,
        r.ip@ == bound_address(crate::store::opt_text(address)),
        r.expires_in == CODE_EXPIRES_IN,
        final(store).codes() == upsert_code(
            old(store).codes(),
            AuthCodeView { code: code@, ip: r.ip@, created_at: now@ },
        ),
        final(store).uploads() == old(store).uploads(),
        final(store).tokens() == old(store).tokens(),
{
    let ip = match address {
        Some(a) => a,
        None => String::from_str("127.0.0.1"),
    };
    store.upsert_code(AuthCode { code: code.clone(), ip: ip.clone(), created_at: now });
    CodeResponse { code, ip, expires_in: CODE_EXPIRES_IN }
}

/// Draws a new pairing code, records it with the server's address and the
/// current time, and answers with it.
pub fn request_code(store: &mut MetadataStore, address: Option<String>) -> (r: CodeResponse)
    requires
        old(store).wf(),
    ensures
        final(store).wf(),
        r.code@.len() == CODE_LENGTH,
        forall|i: int| 0 <= i < CODE_LENGTH ==> is_code_char(#[trigger] r.code@[i]),
        r.ip@ == bound_address(crate::store::opt_text(address)),
        r.expires_in == CODE_EXPIRES_IN,
        exists|t: Seq<char>|
            final(store).codes() == upsert_code(
                old(store).codes(),
                AuthCodeView { code: r.code@, ip: r.ip@, created_at: t },
            ),
        final(store).uploads() == old(store).uploads(),
        final(store).tokens() == old(store).tokens(),
{
    let code = generate_code(CODE_LENGTH);
    let now = now_rfc3339();
    let ghost t = now@;
    let r = issue_code(store, code, address, now);
    assert(store.codes() == upsert_code(
        old(store).codes(),
        AuthCodeView { code: r.code@, ip: r.ip@, created_at: t },
    ));
    r
}

/// The outcome of exchanging `code` for `token`: an unknown code is refused,
/// a token that was already issued is not stored again, anything else succeeds.
pub open spec fn exchange_result(
    codes: Seq<AuthCodeView>,
    tokens: Seq<TokenView>,
    code: Seq<char>,
    token: Seq<char>,
) -> Result<Seq<char>, AuthError> {
    if !code_keys(codes).contains(code) {
        Err(AuthError::InvalidCode)
    } else if token_keys(tokens).contains(token) {
        Err(AuthError::TokenCollision)
    } else {
        Ok(token)
    }
}

/// The token table after an exchange: a successful one adds the token, bound to
/// the username and to the address recorded with the code.
pub open spec fn exchange_tokens(
    codes: Seq<AuthCodeView>,
    tokens: Seq<TokenView>,
    code: Seq<char>,
    username: Seq<char>,
    token: Seq<char>,
    now: Seq<char>,
) -> Seq<TokenView> {
    if exchange_result(codes, tokens, code, token) is Ok {
        insert_new_token(
            tokens,
            TokenView { token, username, ip: code_for(codes, code).ip, created_at: now },
        )
    } else {
        tokens
    }
}

pub open spec fn response_text(r: Result<AuthResponse, AuthError>) -> Result<Seq<char>, AuthError> {
    match r {
        Ok(resp) => Ok(resp.token@),
        Err(e) => Err(e),
    }
}

/// Exchanges a code for the given token. The code stays valid afterwards.
pub fn exchange_with_token(
    store: &mut MetadataStore,
    request: &AuthRequest,
    token: String,
    now: String,
) -> (r: Result<AuthResponse, AuthError>)
    requires
        old(store).wf(),
    ensures
        final(store).wf(),
        response_text(r) == exchange_result(
            old(store).codes(),
            old(store).tokens(),
            request.code@,
            token@,
        ),
        final(store).tokens() == exchange_tokens(
            old(store).codes(),
            old(store).tokens(),
            request.code@,
            request.username@,
            token@,
            now@,
        ),
        final(store).codes() == old(store).codes(),
        final(store).uploads() == old(store).uploads(),
{
    match store.code_address(&request.code) {
        None => Err(AuthError::InvalidCode),
        Some(ip) => {
            let record = TokenRecord {
                token: token.clone(),
                username: request.username.clone(),
                ip,
                created_at: now,
            };
            if store.record_token(record) {
                Ok(AuthResponse { token })
            } else {
                Err(AuthError::TokenCollision)
            }
        },
    }
}

/// Exchanges a code for a freshly drawn token, stamped with the current time.
/// An unknown code is refused and changes nothing.
pub fn exchange(store: &mut MetadataStore, request: &AuthRequest) -> (r: Result<
    AuthResponse,
    AuthError,
>)
    requires
        old(store).wf(),
    ensures
        final(store).wf(),
        !code_keys(old(store).codes()).contains(request.code@) ==> r == Err::<AuthResponse, AuthError>(
            AuthError::InvalidCode,
        ),
        r is Err ==> final(store).tokens() == old(store).tokens(),
        r is Err ==> code_keys(old(store).codes()).contains(request.code@) ==> r == Err::<
            AuthResponse,
            AuthError,
        >(AuthError::TokenCollision),
        r matches Ok(resp) ==> {
            &&& code_keys(old(store).codes()).contains(request.code@)
            &&& !token_keys(old(store).tokens()).contains(resp.token@)
            &&& exists|t: Seq<char>|
                final(store).tokens() == old(store).tokens().push(
                    TokenView {
                        token: resp.token@,
                        username: request.username@,
                        ip: code_for(old(store).codes(), request.code@).ip,
                        created_at: t,
                    },
                )
        },
        exists|tok: Seq<char>, t: Seq<char>|
            {
                &&& tok.len() == 36
                &&& response_text(r) == exchange_result(
                    old(store).codes(),
                    old(store).tokens(),
                    request.code@,
                    tok,
                )
                &&& final(store).tokens() == exchange_tokens(
                    old(store).codes(),
                    old(store).tokens(),
                    request.code@,
                    request.username@,
                    tok,
                    t,
                )
            },
        code_keys(old(store).codes()).contains(request.code@) && old(store).tokens().len() == 0
            ==> r is Ok,
        final(store).codes() == old(store).codes(),
        final(store).uploads() == old(store).uploads(),
{
    let token = random_uuid();
    let now = now_rfc3339();
    let ghost t = now@;
    let ghost tok = token@;
    let r = exchange_with_token(store, request, token, now);
    proof {
        assert(tok.len() == 36);
        if old(store).tokens().len() == 0 {
            assert(!token_keys(old(store).tokens()).contains(tok));
        }
        if r is Ok {
            assert(store.tokens() == old(store).tokens().push(
                TokenView {
                    token: tok,
                    username: request.username@,
                    ip: code_for(old(store).codes(), request.code@).ip,
                    created_at: t,
                },
            ));
        }
    }
    r
}

/// Issuing a code keeps codes unique and binds the code to the new entry; other
/// codes stay issued or unissued as they were.
pub proof fn lemma_issue_binds(codes: Seq<AuthCodeView>, entry: AuthCodeView)
    requires
        code_keys(codes).no_duplicates(),
    ensures
        ({
            let after = upsert_code(codes, entry);
            &&& code_keys(after).no_duplicates()
            &&& code_keys(after).contains(entry.code)
            &&& code_for(after, entry.code) == entry
            &&& forall|k: Seq<char>|
                k != entry.code ==> (code_keys(after).contains(k) == code_keys(codes).contains(k))
        }),
{
    let keys = code_keys(codes);
    let after = upsert_code(codes, entry);
    if keys.contains(entry.code) {
        let i = keys.index_of(entry.code);
        assert(code_keys(after) =~= keys);
        assert(code_keys(after)[i] == entry.code);
        assert forall|k: Seq<char>| k != entry.code implies (code_keys(after).contains(k)
            == keys.contains(k)) by {
            if keys.contains(k) {
                let j = keys.index_of(k);
                assert(code_keys(after)[j] == k);
            }
        }
    } else {
        assert(code_keys(after) =~= keys.push(entry.code));
        assert(code_keys(after)[codes.len() as int] == entry.code);
        assert forall|k: Seq<char>| k != entry.code implies (code_keys(after).contains(k)
            == keys.contains(k)) by {
            if keys.contains(k) {
                let j = keys.index_of(k);
                assert(code_keys(after)[j] == k);
            }
            if code_keys(after).contains(k) {
                let j = code_keys(after).index_of(k);
                assert(code_keys(after)[j] == k);
                assert(j < codes.len());
                assert(keys[j] == k);
            }
        }
    }
    let j = code_keys(after).index_of(entry.code);
    assert(code_keys(after)[j] == entry.code);
}

/// The handshake: after a code is issued, exchanging it for a token never issued
/// before succeeds and binds the token to the user and the code's address; a code
/// that was never issued is refused; and the code stays valid, so a second
/// exchange succeeds exactly when its token differs from the first, and a token
/// it grants is never the first one.
pub proof fn lemma_handshake(
    codes: Seq<AuthCodeView>,
    tokens: Seq<TokenView>,
    code: Seq<char>,
    ip: Seq<char>,
    issued_at: Seq<char>,
    wrong_code: Seq<char>,
    first_user: Seq<char>,
    first_token: Seq<char>,
    first_time: Seq<char>,
    second_token: Seq<char>,
    any_token: Seq<char>,
)
    requires
        code_keys(codes).no_duplicates(),
        !code_keys(codes).contains(wrong_code),
        wrong_code != code,
        !token_keys(tokens).contains(first_token),
        !token_keys(tokens).contains(second_token),
    ensures
        ({
            let codes1 = upsert_code(codes, AuthCodeView { code, ip, created_at: issued_at });
            let tokens1 = exchange_tokens(codes1, tokens, code, first_user, first_token, first_time);
            &&& exchange_result(codes1, tokens, code, first_token) == Ok::<
                Seq<char>,
                AuthError,
            >(first_token)
            &&& tokens1 == tokens.push(
                TokenView { token: first_token, username: first_user, ip, created_at: first_time },
            )
            &&& exchange_result(codes1, tokens1, wrong_code, any_token) == Err::<
                Seq<char>,
                AuthError,
            >(AuthError::InvalidCode)
            &&& (exchange_result(codes1, tokens1, code, second_token) is Ok <==> second_token
                != first_token)
            &&& (exchange_result(codes1, tokens1, code, second_token) matches Ok(t) ==> t
                != first_token)
        }),
{
    let entry = AuthCodeView { code, ip, created_at: issued_at };
    let codes1 = upsert_code(codes, entry);
    lemma_issue_binds(codes, entry);
    let tv = TokenView { token: first_token, username: first_user, ip, created_at: first_time };
    let tokens1 = exchange_tokens(codes1, tokens, code, first_user, first_token, first_time);
    assert(tokens1 == tokens.push(tv));
    assert(token_keys(tokens1) =~= token_keys(tokens).push(first_token));
    assert(token_keys(tokens1)[tokens.len() as int] == first_token);
    if token_keys(tokens1).contains(second_token) {
        let j = token_keys(tokens1).index_of(second_token);
        assert(token_keys(tokens1)[j] == second_token);
        if j < tokens.len() {
            assert(token_keys(tokens)[j] == second_token);
        }
    }
}

} // verus!
