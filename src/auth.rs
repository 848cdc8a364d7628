use vstd::prelude::*;
use vstd::utf8::encode_utf8;
use crate::cache::{fresh, swept, TimedCache, TimedCacheEntry};
use crate::error::AuthError;
use crate::hasher::{argon2_accepts, argon2_encoded, hashable, random_salt, storage_hash_with_salt, verify_storage};
use crate::identity::Identity;
use crate::store::{
    by_ethaddr, by_username, by_uuid, has_ethaddr, has_username, has_uuid, unique_keys, with_pwhash,
    Account, Conflict, UserRow, UserStore,
};
use crate::token::{chars_of, push_char, AuthToken};
use crate::validate::{
    address_problem, byte_len, is_username_char, username_problem, verify_ethaddr, verify_username,
};

verus! {

/// What `char::to_lowercase` yields for `c`, collected into a string.
pub uninterp spec fn lower_of_char(c: char) -> Seq<char>;

/// ASCII lowercase: `A`..=`Z` become `a`..=`z`, anything else is kept.
pub open spec fn ascii_lower(c: char) -> char {
    if 'A' <= c && c <= 'Z' {
        ((c as int) + 32) as char
    } else {
        c
    }
}

/// The lowercase mapping of one character.
pub open spec fn fold_char(c: char) -> Seq<char> {
    if (c as u32) < 128 {
        seq![ascii_lower(c)]
    } else {
        lower_of_char(c)
    }
}

/// The case-folded (canonical) form of a text: each character's lowercase
/// mapping, in order.
pub open spec fn fold_case(s: Seq<char>) -> Seq<char>
    decreases s.len(),
{
    if s.len() == 0 {
        seq![]
    } else {
        fold_case(s.drop_last()) + fold_char(s.last())
    }
}

/// Relies on `char::to_lowercase`, collected into a `String`: the lowercase
/// mapping of `c`, which depends on `c` alone.
#[verifier::external_body]
fn lowercase_char(c: char) -> (r: String)
    ensures
        r@ == lower_of_char(c),
{
    c.to_lowercase().collect::<String>()
}

/// The case-folded form of `string`.
pub fn decapitalize(string: &str) -> (r: String)
    ensures
        r@ == fold_case(string@),
{
    let cs = chars_of(string);
    let mut r = String::new();
    for i in 0..cs.len()
        invariant
            cs@ == string@,
            r@ == fold_case(cs@.subrange(0, i as int)),
    {
        let c = cs[i];
        assert(cs@.subrange(0, i + 1).drop_last() =~= cs@.subrange(0, i as int));
        if (c as u32) < 128 {
            let l = if 'A' <= c && c <= 'Z' {
                ((c as u8) + 32) as char
            } else {
                c
            };
            push_char(&mut r, l);
        } else {
            let l = lowercase_char(c);
            r.append(l.as_str());
        }
    }
    assert(cs@.subrange(0, cs@.len() as int) =~= cs@);
    r
}

/// Why a registration is refused before any hashing, if it is: a malformed
/// username or address, or a canonical username or address already taken.
pub open spec fn register_refusal(rows: Seq<Account>, u: Seq<char>, a: Seq<char>) -> Option<
    AuthError,
> {
    match username_problem(u) {
        Some(q) => Some(AuthError::InvalidRequest(q)),
        None => match address_problem(a) {
            Some(q) => Some(AuthError::InvalidEthAddr(q)),
            None => if has_username(rows, fold_case(u)) || has_ethaddr(rows, fold_case(a)) {
                Some(AuthError::UserExists)
            } else {
                None
            },
        },
    }
}

/// The account that registering `u`, `pw`, `a` under `uuid` and `salt` adds.
pub open spec fn new_account(
    u: Seq<char>,
    pw: Seq<char>,
    a: Seq<char>,
    uuid: Identity,
    salt: Seq<u8>,
) -> Account {
    Account {
        uuid,
        username: fold_case(u),
        display_username: u,
        ethaddr: fold_case(a),
        pwhash: argon2_encoded(encode_utf8(pw), salt),
    }
}

/// The identity that a sign-in with `u` and `pw` resolves to: none if no
/// account has the canonical username or its hash rejects the password.
pub open spec fn login_identity(rows: Seq<Account>, u: Seq<char>, pw: Seq<char>) -> Option<
    Identity,
> {
    let name = fold_case(u);
    if has_username(rows, name) && argon2_accepts(
        by_username(rows, name).pwhash,
        encode_utf8(pw),
    ) {
        Some(by_username(rows, name).uuid)
    } else {
        None
    }
}

/// The identity of the account with the canonical form of `u`, if any.
pub open spec fn username_identity(rows: Seq<Account>, u: Seq<char>) -> Option<Identity> {
    if has_username(rows, fold_case(u)) {
        Some(by_username(rows, fold_case(u)).uuid)
    } else {
        None
    }
}

/// The identity that token `t` stands for in `m`, if it is held.
pub open spec fn token_identity(m: Map<u64, TimedCacheEntry>, t: AuthToken) -> Option<Identity> {
    if m.contains_key(t.unique) {
        Some(m[t.unique].data)
    } else {
        None
    }
}

/// Builds the row for a new account: folds username and address and hashes
/// the pre-hashed password under `salt`. Touches no store.
pub fn prepare_account(
    username: &str,
    password: &str,
    ethaddr: &str,
    uuid: Identity,
    salt: &[u8],
) -> (r: Result<UserRow, AuthError>)
    ensures
        r is Ok <==> hashable(encode_utf8(password@), salt@),
        r is Ok ==> r->Ok_0.view() == new_account(username@, password@, ethaddr@, uuid, salt@),
        r is Ok ==> argon2_accepts(r->Ok_0.pwhash@, encode_utf8(password@)),
        r is Err ==> r->Err_0 is Hash,
{
    let pwhash = match storage_hash_with_salt(password, salt) {
        Ok(h) => h,
        Err(e) => return Err(e),
    };
    Ok(
        UserRow {
            uuid,
            username: decapitalize(username),
            display_username: username.to_owned(),
            ethaddr: decapitalize(ethaddr),
            pwhash,
        },
    )
}

/// Builds the row for a new account under a fresh identity and a fresh
/// random salt. Touches no store.
pub fn prepare_new_account(username: &str, password: &str, ethaddr: &str) -> (r: Result<
    UserRow,
    AuthError,
>)
    ensures
        r is Ok <==> encode_utf8(password@).len() <= u32::MAX,
        r is Ok ==> exists|uuid: Identity, salt: Seq<u8>|
            salt.len() == 16 && r->Ok_0.view() == #[trigger] new_account(
                username@,
                password@,
                ethaddr@,
                uuid,
                salt,
            ),
        r is Ok ==> argon2_accepts(r->Ok_0.pwhash@, encode_utf8(password@)),
        r is Err ==> r->Err_0 is Hash,
{
    let uuid = Identity::mint();
    let salt = random_salt();
    prepare_account(username, password, ethaddr, uuid, &salt)
}

/// Inserts a prepared row. A taken username or address is reported as
/// `UserExists`, a taken identity as a store failure.
pub fn add_account(users: &mut UserStore, row: UserRow) -> (r: Result<(), AuthError>)
    requires
        old(users).wf(),
    ensures
        final(users).wf(),
        r is Ok ==> final(users).view() == old(users).view().push(row.view()),
        r is Err ==> final(users).view() == old(users).view(),
        r is Ok <==> !has_username(old(users).view(), row.view().username) && !has_ethaddr(
            old(users).view(),
            row.view().ethaddr,
        ) && !has_uuid(old(users).view(), row.uuid),
        (has_username(old(users).view(), row.view().username) || has_ethaddr(
            old(users).view(),
            row.view().ethaddr,
        )) ==> r == Err::<(), AuthError>(AuthError::UserExists),
        !has_username(old(users).view(), row.view().username) && !has_ethaddr(
            old(users).view(),
            row.view().ethaddr,
        ) && has_uuid(old(users).view(), row.uuid) ==> r matches Err(AuthError::Db(_)),
{
    match users.insert(row) {
        Ok(()) => Ok(()),
        Err(Conflict::Identity) => Err(
            AuthError::Db(String::from_str("identity already in use")),
        ),
        Err(_) => Err(AuthError::UserExists),
    }
}

/// Checks a registration against the store before any hashing: the forms of
/// username and address, and that neither is taken.
pub fn register_check(users: &UserStore, username: &str, ethaddr: &str) -> (r: Result<
    (),
    AuthError,
>)
    ensures
        match register_refusal(users.view(), username@, ethaddr@) {
            Some(e) => r == Err::<(), AuthError>(e),
            None => r is Ok,
        },
{
    match verify_username(username) {
        Ok(()) => {},
        Err(e) => return Err(e),
    }
    match verify_ethaddr(ethaddr) {
        Ok(()) => {},
        Err(e) => return Err(e),
    }
    let name = decapitalize(username);
    let addr = decapitalize(ethaddr);
    if users.user_exists(&name) || users.find_by_ethaddr(&addr).is_some() {
        return Err(AuthError::UserExists);
    }
    Ok(())
}

/// Registers an account under the given identity and storage salt.
pub fn register_with(
    users: &mut UserStore,
    username: &str,
    password: &str,
    ethaddr: &str,
    uuid: Identity,
    salt: &[u8; 16],
) -> (r: Result<(), AuthError>)
    requires
        old(users).wf(),
    ensures
        final(users).wf(),
        match register_refusal(old(users).view(), username@, ethaddr@) {
            Some(e) => r == Err::<(), AuthError>(e) && final(users).view() == old(users).view(),
            None => if !hashable(encode_utf8(password@), salt@) {
                r matches Err(AuthError::Hash(_)) && final(users).view() == old(users).view()
            } else if has_uuid(old(users).view(), uuid) {
                r matches Err(AuthError::Db(_)) && final(users).view() == old(users).view()
            } else {
                &&& r is Ok
                &&& final(users).view() == old(users).view().push(
                    new_account(username@, password@, ethaddr@, uuid, salt@),
                )
                &&& argon2_accepts(
                    new_account(username@, password@, ethaddr@, uuid, salt@).pwhash,
                    encode_utf8(password@),
                )
            },
        },
{
    match register_check(users, username, ethaddr) {
        Ok(()) => {},
        Err(e) => return Err(e),
    }
    let row = match prepare_account(username, password, ethaddr, uuid, salt) {
        Ok(row) => row,
        Err(e) => return Err(e),
    };
    add_account(users, row)
}

/// Registers an account: a fresh identity, a fresh random salt.
pub fn register(users: &mut UserStore, username: &str, password: &str, ethaddr: &str) -> (r:
    Result<(), AuthError>)
    requires
        old(users).wf(),
    ensures
        final(users).wf(),
        match register_refusal(old(users).view(), username@, ethaddr@) {
            Some(e) => r == Err::<(), AuthError>(e) && final(users).view() == old(users).view(),
            None => {
                &&& r is Ok ==> exists|uuid: Identity, salt: Seq<u8>|
                    salt.len() == 16 && final(users).view() == old(users).view().push(
                        #[trigger] new_account(username@, password@, ethaddr@, uuid, salt),
                    ) && argon2_accepts(
                        new_account(username@, password@, ethaddr@, uuid, salt).pwhash,
                        encode_utf8(password@),
                    )
                &&& r is Err ==> final(users).view() == old(users).view() && (r->Err_0 is Hash
                    || r->Err_0 is Db)
                &&& encode_utf8(password@).len() > u32::MAX ==> r is Err && r->Err_0 is Hash
                &&& encode_utf8(password@).len() <= u32::MAX ==> r is Ok || (r is Err
                    && r->Err_0 is Db)
                &&& (r is Err && r->Err_0 is Db) ==> exists|id: Identity|
                    has_uuid(old(users).view(), id)
            },
        },
{
    let uuid = Identity::mint();
    let salt = random_salt();
    register_with(users, username, password, ethaddr, uuid, &salt)
}

/// What a sign-in needs of an account: its identity and stored hash.
#[derive(Debug)]
pub struct LoginRecord {
    pub uuid: Identity,
    pub pwhash: String,
}

/// Looks up the account a sign-in names: checks the username's form, then
/// finds the account with its canonical form.
pub fn find_login(users: &UserStore, username: &str) -> (r: Result<LoginRecord, AuthError>)
    requires
        users.wf(),
    ensures
        match username_problem(username@) {
            Some(q) => r == Err::<LoginRecord, AuthError>(AuthError::InvalidRequest(q)),
            None => if has_username(users.view(), fold_case(username@)) {
                &&& r is Ok
                &&& r->Ok_0.uuid == by_username(users.view(), fold_case(username@)).uuid
                &&& r->Ok_0.pwhash@ == by_username(users.view(), fold_case(username@)).pwhash
            } else {
                r == Err::<LoginRecord, AuthError>(AuthError::InvalidLogin)
            },
        },
{
    match verify_username(username) {
        Ok(()) => {},
        Err(e) => return Err(e),
    }
    let name = decapitalize(username);
    let i = match users.find_by_username(&name) {
        Some(i) => i,
        None => return Err(AuthError::InvalidLogin),
    };
    let row = users.row(i);
    proof {
        lemma_by_username(users.view(), name@, i as int);
    }
    Ok(LoginRecord { uuid: row.uuid, pwhash: row.pwhash.clone() })
}

/// Checks a pre-hashed password against an account's stored hash.
pub fn check_login(record: &LoginRecord, password: &str) -> (r: Result<Identity, AuthError>)
    ensures
        argon2_accepts(record.pwhash@, encode_utf8(password@)) ==> r == Ok::<
            Identity,
            AuthError,
        >(record.uuid),
        !argon2_accepts(record.pwhash@, encode_utf8(password@)) ==> r == Err::<
            Identity,
            AuthError,
        >(AuthError::InvalidLogin),
{
    if verify_storage(record.pwhash.as_str(), password) {
        Ok(record.uuid)
    } else {
        Err(AuthError::InvalidLogin)
    }
}

/// Issues a fresh random token for `id` at `now`.
pub fn issue_token(tokens: &mut TimedCache, id: Identity, now: u64) -> (r: AuthToken)
    ensures
        final(tokens).view() == old(tokens).view().insert(
            r.unique,
            TimedCacheEntry { timestamp: now, data: id },
        ),
{
    let token = AuthToken::generate();
    tokens.insert(token, id, now);
    token
}

/// Signs in: checks the username's form, then the password against the
/// stored hash, and issues `token` for the account's identity at `now`.
pub fn generate_token_with(
    users: &UserStore,
    tokens: &mut TimedCache,
    username: &str,
    password: &str,
    token: AuthToken,
    now: u64,
) -> (r: Result<AuthToken, AuthError>)
    requires
        users.wf(),
    ensures
        match username_problem(username@) {
            Some(q) => r == Err::<AuthToken, AuthError>(AuthError::InvalidRequest(q))
                && final(tokens).view() == old(tokens).view(),
            None => match login_identity(users.view(), username@, password@) {
                None => r == Err::<AuthToken, AuthError>(AuthError::InvalidLogin)
                    && final(tokens).view() == old(tokens).view(),
                Some(id) => r == Ok::<AuthToken, AuthError>(token) && final(tokens).view()
                    == old(tokens).view().insert(
                    token.unique,
                    TimedCacheEntry { timestamp: now, data: id },
                ),
            },
        },
{
    let record = match find_login(users, username) {
        Ok(record) => record,
        Err(e) => return Err(e),
    };
    let id = match check_login(&record, password) {
        Ok(id) => id,
        Err(e) => return Err(e),
    };
    tokens.insert(token, id, now);
    Ok(token)
}

/// Signs in, issuing a fresh random token.
pub fn generate_token(
    users: &UserStore,
    tokens: &mut TimedCache,
    username: &str,
    password: &str,
    now: u64,
) -> (r: Result<AuthToken, AuthError>)
    requires
        users.wf(),
    ensures
        match username_problem(username@) {
            Some(q) => r == Err::<AuthToken, AuthError>(AuthError::InvalidRequest(q))
                && final(tokens).view() == old(tokens).view(),
            None => match login_identity(users.view(), username@, password@) {
                None => r == Err::<AuthToken, AuthError>(AuthError::InvalidLogin)
                    && final(tokens).view() == old(tokens).view(),
                Some(id) => r is Ok && final(tokens).view() == old(tokens).view().insert(
                    r->Ok_0.unique,
                    TimedCacheEntry { timestamp: now, data: id },
                ),
            },
        },
{
    let token = AuthToken::generate();
    generate_token_with(users, tokens, username, password, token, now)
}

/// Resolves a token to its identity, consuming it: a token is good for one
/// use, however recently it was issued.
pub fn verify(tokens: &mut TimedCache, token: AuthToken) -> (r: Result<Identity, AuthError>)
    ensures
        final(tokens).view() == old(tokens).view().remove(token.unique),
        match token_identity(old(tokens).view(), token) {
            Some(id) => r == Ok::<Identity, AuthError>(id),
            None => r == Err::<Identity, AuthError>(AuthError::InvalidToken),
        },
{
    match tokens.take(&token) {
        Some(id) => Ok(id),
        None => Err(AuthError::InvalidToken),
    }
}

/// The identity of the account with the canonical form of `username`.
pub fn username_to_uuid(users: &UserStore, username: &str) -> (r: Result<Identity, AuthError>)
    requires
        users.wf(),
    ensures
        match username_identity(users.view(), username@) {
            Some(id) => r == Ok::<Identity, AuthError>(id),
            None => r == Err::<Identity, AuthError>(AuthError::UserDoesNotExist),
        },
{
    let name = decapitalize(username);
    match users.find_by_username(&name) {
        Some(i) => {
            proof {
                lemma_by_username(users.view(), name@, i as int);
            }
            Ok(users.row(i).uuid)
        },
        None => Err(AuthError::UserDoesNotExist),
    }
}

/// The display username of the account with identity `uuid`.
pub fn uuid_to_username(users: &UserStore, uuid: Identity) -> (r: Result<String, AuthError>)
    requires
        users.wf(),
    ensures
        has_uuid(users.view(), uuid) ==> r is Ok && r->Ok_0@ == by_uuid(
            users.view(),
            uuid,
        ).display_username,
        !has_uuid(users.view(), uuid) ==> r matches Err(AuthError::UserDoesNotExist),
{
    match users.find_by_uuid(uuid) {
        Some(i) => {
            proof {
                let rows = users.view();
                let j = choose|j: int| 0 <= j < rows.len() && (#[trigger] rows[j]).uuid == uuid;
                assert(rows[i as int].uuid == rows[j].uuid);
            }
            Ok(users.row(i).display_username.clone())
        },
        None => Err(AuthError::UserDoesNotExist),
    }
}

/// The identity of the account linked to the canonical form of `ethaddr`.
pub fn eth_to_uuid(users: &UserStore, ethaddr: &str) -> (r: Result<Identity, AuthError>)
    requires
        users.wf(),
    ensures
        has_ethaddr(users.view(), fold_case(ethaddr@)) ==> r == Ok::<Identity, AuthError>(
            by_ethaddr(users.view(), fold_case(ethaddr@)).uuid,
        ),
        !has_ethaddr(users.view(), fold_case(ethaddr@)) ==> r matches Err(
            AuthError::EthDoesNotExist,
        ),
{
    let addr = decapitalize(ethaddr);
    match users.find_by_ethaddr(&addr) {
        Some(i) => {
            proof {
                lemma_by_ethaddr(users.view(), addr@, i as int);
            }
            Ok(users.row(i).uuid)
        },
        None => Err(AuthError::EthDoesNotExist),
    }
}

/// The display username of the account linked to the canonical form of
/// `ethaddr`.
pub fn eth_to_username(users: &UserStore, ethaddr: &str) -> (r: Result<String, AuthError>)
    requires
        users.wf(),
    ensures
        has_ethaddr(users.view(), fold_case(ethaddr@)) ==> r is Ok && r->Ok_0@ == by_ethaddr(
            users.view(),
            fold_case(ethaddr@),
        ).display_username,
        !has_ethaddr(users.view(), fold_case(ethaddr@)) ==> r matches Err(
            AuthError::EthDoesNotExist,
        ),
{
    let addr = decapitalize(ethaddr);
    match users.find_by_ethaddr(&addr) {
        Some(i) => {
            proof {
                lemma_by_ethaddr(users.view(), addr@, i as int);
            }
            Ok(users.row(i).display_username.clone())
        },
        None => Err(AuthError::EthDoesNotExist),
    }
}

/// Stores `pwhash` as the password hash of the account linked to the
/// canonical form of `ethaddr`.
pub fn set_credential(users: &mut UserStore, ethaddr: &str, pwhash: String) -> (r: Result<
    (),
    AuthError,
>)
    requires
        old(users).wf(),
    ensures
        final(users).wf(),
        !has_ethaddr(old(users).view(), fold_case(ethaddr@)) ==> (r matches Err(
            AuthError::EthDoesNotExist,
        )) && final(users).view() == old(users).view(),
        has_ethaddr(old(users).view(), fold_case(ethaddr@)) ==> r is Ok && exists|i: int|
            0 <= i < old(users).view().len() && old(users).view()[i].ethaddr == fold_case(ethaddr@)
                && final(users).view() == old(users).view().update(
                i,
                with_pwhash(old(users).view()[i], pwhash@),
            ),
{
    let addr = decapitalize(ethaddr);
    if users.update_pwhash(&addr, pwhash) {
        Ok(())
    } else {
        Err(AuthError::EthDoesNotExist)
    }
}

/// Replaces the password of the account linked to the canonical form of
/// `ethaddr`, hashing it under `salt`. Tokens already issued stay valid.
pub fn change_credential_with(
    users: &mut UserStore,
    ethaddr: &str,
    password: &str,
    salt: &[u8; 16],
) -> (r: Result<(), AuthError>)
    requires
        old(users).wf(),
    ensures
        final(users).wf(),
        !has_ethaddr(old(users).view(), fold_case(ethaddr@)) ==> (r matches Err(
            AuthError::EthDoesNotExist,
        )) && final(users).view() == old(users).view(),
        has_ethaddr(old(users).view(), fold_case(ethaddr@)) && !hashable(
            encode_utf8(password@),
            salt@,
        ) ==> (r matches Err(AuthError::Hash(_))) && final(users).view() == old(users).view(),
        has_ethaddr(old(users).view(), fold_case(ethaddr@)) && hashable(
            encode_utf8(password@),
            salt@,
        ) ==> {
            &&& r is Ok
            &&& exists|i: int|
                0 <= i < old(users).view().len() && old(users).view()[i].ethaddr == fold_case(
                    ethaddr@,
                ) && final(users).view() == old(users).view().update(
                    i,
                    with_pwhash(
                        old(users).view()[i],
                        argon2_encoded(encode_utf8(password@), salt@),
                    ),
                )
            &&& argon2_accepts(
                argon2_encoded(encode_utf8(password@), salt@),
                encode_utf8(password@),
            )
        },
{
    let addr = decapitalize(ethaddr);
    if users.find_by_ethaddr(&addr).is_none() {
        return Err(AuthError::EthDoesNotExist);
    }
    let pwhash = match storage_hash_with_salt(password, salt) {
        Ok(h) => h,
        Err(e) => return Err(e),
    };
    set_credential(users, ethaddr, pwhash)
}

/// Replaces the password of the account linked to the canonical form of
/// `ethaddr`, under a fresh random salt.
pub fn change_credential(users: &mut UserStore, ethaddr: &str, password: &str) -> (r: Result<
    (),
    AuthError,
>)
    requires
        old(users).wf(),
    ensures
        final(users).wf(),
        !has_ethaddr(old(users).view(), fold_case(ethaddr@)) ==> (r matches Err(
            AuthError::EthDoesNotExist,
        )) && final(users).view() == old(users).view(),
        r is Ok ==> exists|i: int, salt: Seq<u8>|
            0 <= i < old(users).view().len() && old(users).view()[i].ethaddr == fold_case(ethaddr@)
                && final(users).view() == old(users).view().update(
                i,
                #[trigger] with_pwhash(
                    old(users).view()[i],
                    argon2_encoded(encode_utf8(password@), salt),
                ),
            ) && argon2_accepts(
                argon2_encoded(encode_utf8(password@), salt),
                encode_utf8(password@),
            ),
        r is Err ==> final(users).view() == old(users).view(),
        has_ethaddr(old(users).view(), fold_case(ethaddr@)) && encode_utf8(password@).len()
            <= u32::MAX ==> r is Ok,
        has_ethaddr(old(users).view(), fold_case(ethaddr@)) && encode_utf8(password@).len()
            > u32::MAX ==> r matches Err(AuthError::Hash(_)),
{
    let salt = random_salt();
    change_credential_with(users, ethaddr, password, &salt)
}

/// The account found at a matching position is the one the lookup names.
proof fn lemma_by_username(rows: Seq<Account>, name: Seq<char>, i: int)
    requires
        unique_keys(rows),
        0 <= i < rows.len(),
        rows[i].username == name,
    ensures
        has_username(rows, name),
        by_username(rows, name) == rows[i],
{
    let j = choose|j: int| 0 <= j < rows.len() && (#[trigger] rows[j]).username == name;
    assert(rows[i].username == rows[j].username);
}

/// The account found at a matching position is the one the lookup names.
proof fn lemma_by_ethaddr(rows: Seq<Account>, addr: Seq<char>, i: int)
    requires
        unique_keys(rows),
        0 <= i < rows.len(),
        rows[i].ethaddr == addr,
    ensures
        has_ethaddr(rows, addr),
        by_ethaddr(rows, addr) == rows[i],
{
    let j = choose|j: int| 0 <= j < rows.len() && (#[trigger] rows[j]).ethaddr == addr;
    assert(rows[i].ethaddr == rows[j].ethaddr);
}

/// Texts whose characters agree up to ASCII case fold to the same canonical
/// form.
proof fn lemma_fold_ascii_case(u1: Seq<char>, u2: Seq<char>)
    requires
        u1.len() == u2.len(),
        forall|i: int| 0 <= i < u1.len() ==> ascii_lower(#[trigger] u1[i]) == ascii_lower(u2[i]),
    ensures
        fold_case(u1) == fold_case(u2),
    decreases u1.len(),
{
    if u1.len() > 0 {
        let n = u1.len() - 1;
        assert(ascii_lower(u1[n]) == ascii_lower(u2[n]));
        assert(fold_char(u1.last()) == fold_char(u2.last()));
        lemma_fold_ascii_case(u1.drop_last(), u2.drop_last());
    }
}

/// After a registration succeeds, a sign-in with the same username and
/// password resolves to the new identity, the username lookup gives that
/// identity, and verifying the token issued for it yields it again.
pub proof fn lemma_register_then_sign_in(
    rows: Seq<Account>,
    u: Seq<char>,
    pw: Seq<char>,
    a: Seq<char>,
    uuid: Identity,
    salt: Seq<u8>,
    tokens: Map<u64, TimedCacheEntry>,
    token: AuthToken,
    now: u64,
)
    requires
        register_refusal(rows, u, a) is None,
        argon2_accepts(new_account(u, pw, a, uuid, salt).pwhash, encode_utf8(pw)),
    ensures
        ({
            let rows2 = rows.push(new_account(u, pw, a, uuid, salt));
            &&& username_problem(u) is None
            &&& login_identity(rows2, u, pw) == Some(uuid)
            &&& username_identity(rows2, u) == Some(uuid)
            &&& token_identity(
                tokens.insert(token.unique, TimedCacheEntry { timestamp: now, data: uuid }),
                token,
            ) == Some(uuid)
        }),
{
    let rows2 = rows.push(new_account(u, pw, a, uuid, salt));
    let name = fold_case(u);
    let n = rows.len() as int;
    assert(rows2[n].username == name);
    assert(has_username(rows2, name));
    let j = choose|j: int| 0 <= j < rows2.len() && (#[trigger] rows2[j]).username == name;
    if j < n {
        assert(rows[j] == rows2[j]);
        assert(has_username(rows, name));
    }
    assert(by_username(rows2, name) == rows2[n]);
}

/// Once a registration has succeeded, registering again under a username of
/// the same canonical form, in whatever case, is refused with `UserExists`,
/// which leaves the store as it is.
pub proof fn lemma_register_twice(
    rows: Seq<Account>,
    u1: Seq<char>,
    pw1: Seq<char>,
    a1: Seq<char>,
    uuid: Identity,
    salt: Seq<u8>,
    u2: Seq<char>,
    a2: Seq<char>,
)
    requires
        register_refusal(rows, u1, a1) is None,
        fold_case(u2) == fold_case(u1),
        username_problem(u2) is None,
        address_problem(a2) is None,
    ensures
        register_refusal(rows.push(new_account(u1, pw1, a1, uuid, salt)), u2, a2) == Some(
            AuthError::UserExists,
        ),
{
    let rows2 = rows.push(new_account(u1, pw1, a1, uuid, salt));
    assert(rows2[rows.len() as int].username == fold_case(u2));
}

/// A token is good for one use: once a verify has taken it, a second verify
/// of the same token finds nothing and fails with `InvalidToken`.
pub proof fn lemma_single_use(m: Map<u64, TimedCacheEntry>, token: AuthToken)
    ensures
        token_identity(m.remove(token.unique), token) is None,
{
}

/// A token held for longer than the time-to-live is gone after the next
/// sweep, so a verify of it fails with `InvalidToken`.
pub proof fn lemma_expired_token_rejected(m: Map<u64, TimedCacheEntry>, token: AuthToken, now: u64)
    requires
        m.contains_key(token.unique) ==> !fresh(m[token.unique], now),
    ensures
        token_identity(swept(m, now), token) is None,
{
}

/// Texts whose characters agree up to ASCII case have UTF-8 encodings of
/// one length.
proof fn lemma_byte_len_ascii_case(u1: Seq<char>, u2: Seq<char>)
    requires
        u1.len() == u2.len(),
        forall|i: int| 0 <= i < u1.len() ==> ascii_lower(#[trigger] u1[i]) == ascii_lower(u2[i]),
    ensures
        byte_len(u1) == byte_len(u2),
    decreases u1.len(),
{
    if u1.len() > 0 {
        assert(ascii_lower(u1[0]) == ascii_lower(u2[0]));
        assert forall|i: int| 0 <= i < u1.drop_first().len() implies ascii_lower(
            #[trigger] u1.drop_first()[i],
        ) == ascii_lower(u2.drop_first()[i]) by {
            assert(ascii_lower(u1[i + 1]) == ascii_lower(u2[i + 1]));
        }
        lemma_byte_len_ascii_case(u1.drop_first(), u2.drop_first());
    }
}

/// Usernames that differ only in the case of ASCII letters are one account:
/// both are legal or neither is, with the same password they sign in to the
/// same identity, and they look up the same identity.
pub proof fn lemma_case_insensitive(rows: Seq<Account>, u1: Seq<char>, u2: Seq<char>, pw: Seq<char>)
    requires
        u1.len() == u2.len(),
        forall|i: int| 0 <= i < u1.len() ==> ascii_lower(#[trigger] u1[i]) == ascii_lower(u2[i]),
    ensures
        fold_case(u1) == fold_case(u2),
        username_problem(u1) == username_problem(u2),
        login_identity(rows, u1, pw) == login_identity(rows, u2, pw),
        username_identity(rows, u1) == username_identity(rows, u2),
{
    lemma_fold_ascii_case(u1, u2);
    lemma_byte_len_ascii_case(u1, u2);
    assert forall|i: int| 0 <= i < u1.len() implies is_username_char(#[trigger] u1[i])
        == is_username_char(u2[i]) by {
        assert(ascii_lower(u1[i]) == ascii_lower(u2[i]));
    }
    if exists|i: int| 0 <= i < u1.len() && !is_username_char(#[trigger] u1[i]) {
        let i = choose|i: int| 0 <= i < u1.len() && !is_username_char(#[trigger] u1[i]);
        assert(!is_username_char(u2[i]));
    }
    if exists|i: int| 0 <= i < u2.len() && !is_username_char(#[trigger] u2[i]) {
        let i = choose|i: int| 0 <= i < u2.len() && !is_username_char(#[trigger] u2[i]);
        assert(!is_username_char(u1[i]));
    }
}

} // verus!
