//! The decisions of the HTTP and WebSocket surface.
//!
//! Every endpoint is a function from the request's plain values, the store
//! and the credentials to a response or a status. Reading sockets, decoding
//! JSON and multipart bodies, and the locks around the shared state are the
//! caller's business.

use vstd::prelude::*;
use vstd::string::*;
use crate::auth::{bearer_token, extract_bearer_token, generate_token, hash_password, validate_outcome, validate_token_at, verify_password, Claims, ClaimsView};
use crate::ordering::{any, first_index, first_match, lemma_first_index_is, position};
use crate::clock::{is_instant, rfc3339_text, utc_now};
use crate::storage_manager::{
    user_with_email, add_member_outcome, not_member_of, rename_outcome,at_most, conversation_ids, conversations_of, conversations_show, create_dm_outcome, create_group_outcome, create_message_outcome, delete_file_outcome, file_visible_to, history, member_listing, messages_show, upload_outcome, user_named, users_of, visibility_outcome, Conversation, ConversationMember, ConversationWithMembers, File, Message, StorageError, StorageManager, Tables, User, MAX_PAGE};
use crate::ordering::{newest_first};
use crate::store_invariants::consistent;
use crate::text::{after_last, before_first, before_first_chars, matches_at, occurs_at, opt_text, str_eq, string_from_chars, string_views, to_chars, trim, trim_chars, unicode_lowercase};

verus! {

/// The port of the hub API.
pub const HUB_API_PORT: u16 = 9090;

/// The page size of a history request that names none.
pub const DEFAULT_PAGE: u32 = 50;

/// The largest upload, in bytes.
pub const MAX_UPLOAD_BYTES: u64 = 104857600;

// ---------------------------------------------------------------------------
// Statuses
// ---------------------------------------------------------------------------

/// The failures that an endpoint answers with.
#[derive(Debug, Clone, Copy, PartialEq, Eq, Structural)]
pub enum ApiError {
    /// Malformed input: 400.
    BadRequest,
    /// Missing, invalid or expired token: 401, whatever the cause.
    Unauthorized,
    /// Valid identity, insufficient permission: 403.
    Forbidden,
    /// Entity absent, or hidden from the requester: 404.
    NotFound,
    /// A unique field is taken: 409.
    Conflict,
    /// The rate limit is exceeded: 429.
    TooManyRequests,
    /// Unexpected failure of the store or of the credentials: 500.
    Internal,
    /// The node is not configured yet: 503.
    Unavailable,
}

impl ApiError {
    /// The HTTP status of the failure.
    pub open spec fn status(self) -> u16 {
        match self {
            ApiError::BadRequest => 400,
            ApiError::Unauthorized => 401,
            ApiError::Forbidden => 403,
            ApiError::NotFound => 404,
            ApiError::Conflict => 409,
            ApiError::TooManyRequests => 429,
            ApiError::Internal => 500,
            ApiError::Unavailable => 503,
        }
    }

    /// The HTTP status of the failure.
    pub fn status_code(&self) -> (r: u16)
        ensures
            r == self.status(),
    {
        match self {
            ApiError::BadRequest => 400,
            ApiError::Unauthorized => 401,
            ApiError::Forbidden => 403,
            ApiError::NotFound => 404,
            ApiError::Conflict => 409,
            ApiError::TooManyRequests => 429,
            ApiError::Internal => 500,
            ApiError::Unavailable => 503,
        }
    }
}

// ---------------------------------------------------------------------------
// Requests and responses
// ---------------------------------------------------------------------------

/// The body of a registration.
#[derive(Debug)]
pub struct RegisterRequest {
    pub username: String,
    pub email: String,
    pub password: String,
}

/// The body of a login.
#[derive(Debug)]
pub struct LoginRequest {
    pub username: String,
    pub password: String,
}

/// What registration and login answer with: the user and a session token.
#[derive(Debug)]
pub struct AuthResponse {
    pub user_id: String,
    pub username: String,
    pub email: String,
    pub is_admin: bool,
    pub token: String,
    pub expires_at: String,
}

/// A new message on its way to the subscribers.
#[derive(Debug)]
pub struct BroadcastMessage {
    pub conversation_id: String,
    pub message: Message,
}

/// The body of a request to create a conversation: `kind` is `dm`, with
/// the peer, or `group`, with a name and the members.
#[derive(Debug)]
pub struct CreateConversationRequest {
    pub kind: String,
    pub peer_user_id: Option<String>,
    pub name: Option<String>,
    pub member_ids: Option<Vec<String>>,
}

/// The body of a request to change a conversation.
#[derive(Debug)]
pub struct UpdateConversationRequest {
    pub name: Option<String>,
    pub add_members: Option<Vec<String>>,
    pub remove_members: Option<Vec<String>>,
}

/// The body of a request to change the visibility of a file.
#[derive(Debug)]
pub struct UpdateFileRequest {
    pub is_public: bool,
}

/// The body of a request to send a message.
#[derive(Debug)]
pub struct SendMessageRequest {
    pub body: String,
    pub attachment_ids: Vec<String>,
}

/// The query of a history request: the page size and the time stamp before
/// which the page lies.
#[derive(Debug)]
pub struct MessagesQuery {
    pub limit: Option<u32>,
    pub before: Option<String>,
}

/// The query of a WebSocket upgrade: the session token.
#[derive(Debug)]
pub struct WsQuery {
    pub token: String,
}

/// What the health probe reports.
#[derive(Debug)]
pub struct Health {
    pub ok: bool,
    pub version: String,
}

/// The health probe: always well.
pub fn health() -> (h: Health)
    ensures
        h.ok,
        h.version@ == "0.1.0"@,
{
    Health { ok: true, version: String::from_str("0.1.0") }
}

// ---------------------------------------------------------------------------
// Rate limiting
// ---------------------------------------------------------------------------

/// The tokens left to one client and the time of their last refill.
#[derive(Debug)]
pub struct Bucket {
    pub client: String,
    pub tokens: u32,
    pub refilled_at_ms: u64,
}

/// A token bucket per client: a fixed capacity, refilled at a fixed rate.
/// Time is given in milliseconds on a clock that does not go back.
#[derive(Debug)]
pub struct RateLimiter {
    buckets: Vec<Bucket>,
    max_tokens: u32,
    refill_per_sec: u32,
}

/// The tokens and the refill time of a bucket after one request at `now`:
/// whole tokens that the elapsed time has earned are added, up to the
/// capacity; a request is allowed where a token is left, and takes it.
pub open spec fn bucket_step(tokens: u32, refilled_at_ms: u64, max_tokens: u32, refill_per_sec: u32, now_ms: u64) -> (
    u32,
    u64,
    bool,
) {
    let elapsed: int = if now_ms >= refilled_at_ms {
        now_ms - refilled_at_ms
    } else {
        0
    };
    let earned: int = elapsed * refill_per_sec / 1000;
    let filled: int = if earned > 0 {
        if tokens + earned > max_tokens {
            max_tokens as int
        } else {
            tokens + earned
        }
    } else {
        tokens as int
    };
    let at: u64 = if earned > 0 {
        now_ms
    } else {
        refilled_at_ms
    };
    if filled > 0 {
        ((filled - 1) as u32, at, true)
    } else {
        (0u32, at, false)
    }
}

/// The test for the bucket of `client`.
pub open spec fn bucket_of(client: Seq<char>) -> spec_fn(Bucket) -> bool {
    |b: Bucket| b.client@ == client
}

fn step_bucket(tokens: u32, refilled_at_ms: u64, max_tokens: u32, refill_per_sec: u32, now_ms: u64) -> (r: (
    u32,
    u64,
    bool,
))
    ensures
        r == bucket_step(tokens, refilled_at_ms, max_tokens, refill_per_sec, now_ms),
{
    let elapsed: u64 = if now_ms >= refilled_at_ms {
        now_ms - refilled_at_ms
    } else {
        0
    };
    assert((elapsed as int) * (refill_per_sec as int) <= 0xffff_ffff_ffff_ffff * 0xffff_ffff) by (nonlinear_arith)
        requires
            0 <= elapsed <= 0xffff_ffff_ffff_ffff,
            0 <= refill_per_sec <= 0xffff_ffff,
    ;
    let earned: u128 = (elapsed as u128) * (refill_per_sec as u128) / 1000;
    let filled: u32 = if earned > 0 {
        if (tokens as u128) + earned > (max_tokens as u128) {
            max_tokens
        } else {
            assert(tokens + earned <= u32::MAX);
            (tokens as u128 + earned) as u32
        }
    } else {
        tokens
    };
    let at: u64 = if earned > 0 {
        now_ms
    } else {
        refilled_at_ms
    };
    if filled > 0 {
        (filled - 1, at, true)
    } else {
        (0, at, false)
    }
}

impl RateLimiter {
    /// The buckets, in the order in which the clients first came.
    pub closed spec fn buckets(&self) -> Seq<Bucket> {
        self.buckets@
    }

    /// The capacity of a bucket.
    pub closed spec fn capacity(&self) -> u32 {
        self.max_tokens
    }

    /// The tokens that a bucket earns per second.
    pub closed spec fn rate(&self) -> u32 {
        self.refill_per_sec
    }

    /// The tokens of `client` and the time of their last refill; a client
    /// who never came has a full bucket as of `now_ms`.
    pub open spec fn state_of(&self, client: Seq<char>, now_ms: u64) -> (u32, u64) {
        match first_match(self.buckets(), bucket_of(client)) {
            Some(b) => (b.tokens, b.refilled_at_ms),
            None => (self.capacity(), now_ms),
        }
    }

    /// A limiter without clients.
    pub fn new(max_tokens: u32, refill_per_sec: u32) -> (l: Self)
        ensures
            l.buckets().len() == 0,
            l.capacity() == max_tokens,
            l.rate() == refill_per_sec,
    {
        RateLimiter { buckets: Vec::new(), max_tokens, refill_per_sec }
    }

    /// Counts one request of `client` at `now_ms` and says whether it is
    /// allowed. Only the bucket of that client changes.
    pub fn check(&mut self, client: &str, now_ms: u64) -> (allowed: bool)
        ensures
            allowed == limiter_allows(*old(self), client@, now_ms),
            counted(*old(self), *final(self), client@, now_ms),
    {
        let found = position(
            &self.buckets,
            |b: &Bucket| -> (r: bool)
                ensures r == (b.client@ == client@)
                { str_eq(b.client.as_str(), client) },
            Ghost(bucket_of(client@)),
        );
        match found {
            Some(i) => {
                let (tokens, at, allowed) = step_bucket(
                    self.buckets[i].tokens,
                    self.buckets[i].refilled_at_ms,
                    self.max_tokens,
                    self.refill_per_sec,
                    now_ms,
                );
                let b = Bucket { client: self.buckets[i].client.clone(), tokens, refilled_at_ms: at };
                self.buckets[i] = b;
                proof {
                    assert(self.buckets@ =~= old(self).buckets@.update(i as int, self.buckets@[i as int]));
                    assert forall|j: int| 0 <= j < i implies !bucket_of(client@)(
                        #[trigger] self.buckets@[j],
                    ) by {
                        crate::ordering::lemma_first_index_props(
                            old(self).buckets@,
                            bucket_of(client@),
                        );
                        assert(self.buckets@[j] == old(self).buckets@[j]);
                    }
                    lemma_first_index_is(self.buckets@, bucket_of(client@), i as int);
                }
                allowed
            },
            None => {
                let (tokens, at, allowed) = step_bucket(
                    self.max_tokens,
                    now_ms,
                    self.max_tokens,
                    self.refill_per_sec,
                    now_ms,
                );
                self.buckets.push(Bucket { client: String::from_str(client), tokens, refilled_at_ms: at });
                proof {
                    let n = old(self).buckets@.len() as int;
                    assert(self.buckets@ =~= old(self).buckets@.push(self.buckets@.last()));
                    assert forall|j: int| 0 <= j < n implies !bucket_of(client@)(
                        #[trigger] self.buckets@[j],
                    ) by {
                        crate::ordering::lemma_first_index_props(
                            old(self).buckets@,
                            bucket_of(client@),
                        );
                        assert(self.buckets@[j] == old(self).buckets@[j]);
                    }
                    lemma_first_index_is(self.buckets@, bucket_of(client@), n);
                }
                allowed
            },
        }
    }
}

/// Whether the limiter allows a request of `client` at `now_ms`.
pub open spec fn limiter_allows(l: RateLimiter, client: Seq<char>, now_ms: u64) -> bool {
    let was = l.state_of(client, now_ms);
    bucket_step(was.0, was.1, l.capacity(), l.rate(), now_ms).2
}

/// `after` is `before` with one request of `client` at `now_ms` counted:
/// the bucket of that client has made its step, in its old place or, for a
/// client who never came, at the end; every other bucket is as it was.
pub open spec fn counted(before: RateLimiter, after: RateLimiter, client: Seq<char>, now_ms: u64) -> bool {
    let was = before.state_of(client, now_ms);
    let step = bucket_step(was.0, was.1, before.capacity(), before.rate(), now_ms);
    &&& after.capacity() == before.capacity()
    &&& after.rate() == before.rate()
    &&& first_match(after.buckets(), bucket_of(client)) is Some
    &&& after.state_of(client, now_ms) == (step.0, step.1)
    &&& match first_index(before.buckets(), bucket_of(client)) {
        Some(i) => after.buckets() == before.buckets().update(i, after.buckets()[i]) && after.buckets()[i].client@
            == client,
        None => after.buckets() == before.buckets().push(after.buckets().last()) && after.buckets().last().client@
            == client,
    }
}

/// The bucket of a client stays as it is where the bucket of another client
/// is replaced or a bucket for another client is added.
pub proof fn lemma_other_buckets_untouched(before: Seq<Bucket>, after: Seq<Bucket>, client: Seq<char>, other: Seq<char>)
    requires
        other != client,
        match first_index(before, bucket_of(client)) {
            Some(i) => after == before.update(i, after[i]) && after[i].client@ == client,
            None => after == before.push(after.last()) && after.last().client@ == client,
        },
    ensures
        first_match(after, bucket_of(other)) == first_match(before, bucket_of(other)),
{
    let p = bucket_of(other);
    crate::ordering::lemma_first_index_props(before, bucket_of(client));
    crate::ordering::lemma_first_index_props(before, p);
    match first_index(before, p) {
        Some(k) => {
            assert(after[k] == before[k]);
            assert forall|j: int| 0 <= j < k implies !p(#[trigger] after[j]) by {
                if after[j] != before[j] {
                    assert(after[j].client@ == client);
                }
            }
            lemma_first_index_is(after, p, k);
        },
        None => {
            assert forall|j: int| 0 <= j < after.len() implies !p(#[trigger] after[j]) by {
                if j < before.len() && after[j] == before[j] {
                } else {
                    assert(after[j].client@ == client);
                }
            }
            crate::ordering::lemma_first_index_none(after, p);
        },
    }
}

/// A client with a full bucket is allowed as many requests in a row as the
/// bucket holds, and, without time passing, not one more.
pub proof fn lemma_bucket_drains(tokens: u32, at: u64, max_tokens: u32, rate: u32)
    requires
        tokens <= max_tokens,
    ensures
        bucket_step(tokens, at, max_tokens, rate, at).2 == (tokens > 0),
        bucket_step(tokens, at, max_tokens, rate, at).0 == if tokens > 0 {
            (tokens - 1) as u32
        } else {
            0u32
        },
        bucket_step(tokens, at, max_tokens, rate, at).1 == at,
{
    assert(0int * rate / 1000 == 0) by (nonlinear_arith);
}

/// A bucket never holds more than its capacity.
pub proof fn lemma_bucket_within_capacity(tokens: u32, at: u64, max_tokens: u32, rate: u32, now_ms: u64)
    requires
        tokens <= max_tokens,
    ensures
        bucket_step(tokens, at, max_tokens, rate, now_ms).0 <= max_tokens,
{
}

// ---------------------------------------------------------------------------
// The client's address
// ---------------------------------------------------------------------------

/// A request header as the router found it.
#[derive(Debug)]
pub enum HeaderValue {
    /// The header is not there.
    Absent,
    /// The header is there and is not text.
    Opaque,
    /// The header's text.
    Text(String),
}

/// The text that stands for a request without proxy headers.
pub open spec fn direct_marker() -> Seq<char> {
    "direct"@
}

/// The client's address: taken from the proxy's header for the connecting
/// address, else from the forwarding header; of a list, the first entry,
/// trimmed. Without a readable header, the marker of a direct connection.
pub open spec fn client_ip(cf_connecting_ip: HeaderValue, x_forwarded_for: HeaderValue) -> Seq<char> {
    let chosen = if cf_connecting_ip is Absent {
        x_forwarded_for
    } else {
        cf_connecting_ip
    };
    let text = match chosen {
        HeaderValue::Text(s) => s@,
        _ => direct_marker(),
    };
    trim(before_first(text, ','))
}

/// The client's address (see [`client_ip`]).
pub fn get_client_ip(cf_connecting_ip: &HeaderValue, x_forwarded_for: &HeaderValue) -> (r: String)
    ensures
        r@ == client_ip(*cf_connecting_ip, *x_forwarded_for),
{
    let chosen = match cf_connecting_ip {
        HeaderValue::Absent => x_forwarded_for,
        _ => cf_connecting_ip,
    };
    let text = match chosen {
        HeaderValue::Text(s) => to_chars(s.as_str()),
        _ => to_chars("direct"),
    };
    let first = before_first_chars(&text, ',');
    let t = trim_chars(&first);
    string_from_chars(&t)
}

// ---------------------------------------------------------------------------
// The shared state and authentication
// ---------------------------------------------------------------------------

/// What the endpoints share: the store, once the node is configured, the
/// limiter of the authentication endpoints, and the signing secret.
pub struct ApiState {
    pub storage_manager: Option<StorageManager>,
    pub auth_limiter: RateLimiter,
    pub jwt_secret: String,
}

/// The time of a request: the clock's reading, in whole seconds since the
/// epoch.
pub fn request_time() -> (now: i64)
    ensures
        now >= 0,
        is_instant(now),
{
    let (secs, nanos) = utc_now();
    assert(rfc3339_text(secs, nanos) is Some);
    secs
}

/// Who a request with the given `Authorization` header comes from, at the
/// time `now`: the claims of a valid bearer token. A missing header, a
/// header that is no bearer header and a token that fails validation are
/// turned away alike.
pub open spec fn auth_outcome(secret: Seq<char>, authorization: HeaderValue, now: i64) -> Result<
    ClaimsView,
    ApiError,
> {
    match authorization {
        HeaderValue::Text(h) => match bearer_token(h@) {
            Some(t) => match validate_outcome(t, secret, now) {
                Ok(c) => Ok(c),
                Err(_) => Err(ApiError::Unauthorized),
            },
            None => Err(ApiError::Unauthorized),
        },
        _ => Err(ApiError::Unauthorized),
    }
}

/// The view of claims or of a status.
pub open spec fn auth_view(r: Result<Claims, ApiError>) -> Result<ClaimsView, ApiError> {
    match r {
        Ok(c) => Ok(c@),
        Err(e) => Err(e),
    }
}

/// Authenticates a request by its `Authorization` header at the time `now`.
pub fn validate_auth_header(secret: &str, authorization: &HeaderValue, now: i64) -> (r: Result<Claims, ApiError>)
    ensures
        auth_view(r) == auth_outcome(secret@, *authorization, now),
{
    match authorization {
        HeaderValue::Text(h) => match extract_bearer_token(h.as_str()) {
            Some(t) => match validate_token_at(secret, t, now) {
                Ok(c) => Ok(c),
                Err(_) => Err(ApiError::Unauthorized),
            },
            None => Err(ApiError::Unauthorized),
        },
        _ => Err(ApiError::Unauthorized),
    }
}

/// Authenticates a WebSocket upgrade by the token in its query at the time
/// `now`.
pub fn ws_handler(secret: &str, query: &WsQuery, now: i64) -> (r: Result<Claims, ApiError>)
    ensures
        auth_view(r) == match validate_outcome(query.token@, secret@, now) {
            Ok(c) => Ok::<ClaimsView, ApiError>(c),
            Err(_) => Err(ApiError::Unauthorized),
        },
{
    match validate_token_at(secret, query.token.as_str(), now) {
        Ok(c) => Ok(c),
        Err(_) => Err(ApiError::Unauthorized),
    }
}

/// The tables of the state's store.
pub open spec fn tables(state: ApiState) -> Tables {
    state.storage_manager->Some_0@
}

// ---------------------------------------------------------------------------
// Registration and login
// ---------------------------------------------------------------------------

/// Why a registration is turned away before anything is stored, if it is:
/// the rate limit, a node without store, a missing field, or a name or an
/// address that a user has already.
pub open spec fn register_refusal(state: ApiState, client: Seq<char>, now_ms: u64, req: RegisterRequest) -> Option<
    ApiError,
> {
    if !limiter_allows(state.auth_limiter, client, now_ms) {
        Some(ApiError::TooManyRequests)
    } else if state.storage_manager is None {
        Some(ApiError::Unavailable)
    } else if req.username@.len() == 0 || req.email@.len() == 0 || req.password@.len() == 0 {
        Some(ApiError::BadRequest)
    } else if first_index(tables(state).users, user_named(req.username@)) is Some || any(
        tables(state).users,
        user_with_email(req.email@),
    ) {
        Some(ApiError::Conflict)
    } else {
        None
    }
}

/// `after` is `before` with the user of the request stored at the end of
/// the users: under the name and the address of the request, with a hash of
/// its password, and as administrator exactly where there was no user
/// before.
pub open spec fn registered(before: Tables, after: Tables, req: RegisterRequest) -> bool {
    &&& after.users.len() == before.users.len() + 1
    &&& after == Tables { users: before.users.push(after.users.last()), ..before }
    &&& after.users.last().user.username@ == req.username@
    &&& after.users.last().user.email@ == req.email@
    &&& after.users.last().user.is_admin == (before.users.len() == 0)
    &&& after.users.last().user.created_at@ == after.users.last().user.updated_at@
    &&& crate::auth::hashes_to(req.password@, after.users.last().password_hash@)
}

/// Registers a user. The first user ever gets the administrator's role,
/// every later one does not. Every request counts against the client's
/// rate limit. Where hashing fails or the store refuses, nothing is stored.
/// Where the clock leaves no room for the token's lifetime the request
/// fails too, and the user stays registered.
pub fn register(state: &mut ApiState, client: &str, now_ms: u64, req: &RegisterRequest) -> (r: Result<
    AuthResponse,
    ApiError,
>)
    ensures
        final(state).jwt_secret == old(state).jwt_secret,
        counted(old(state).auth_limiter, final(state).auth_limiter, client@, now_ms),
        (final(state).storage_manager is Some) == (old(state).storage_manager is Some),
        old(state).storage_manager is Some && consistent(tables(*old(state))) ==> consistent(
            tables(*final(state)),
        ),
        match register_refusal(*old(state), client@, now_ms, *req) {
            Some(e) => r == Err::<AuthResponse, ApiError>(e) && (old(state).storage_manager is Some
                ==> tables(*final(state)) == tables(*old(state))),
            None => match r {
                Ok(resp) => {
                    &&& registered(tables(*old(state)), tables(*final(state)), *req)
                    &&& resp.user_id == tables(*final(state)).users.last().user.user_id
                    &&& resp.username@ == req.username@
                    &&& resp.email@ == req.email@
                    &&& resp.is_admin == (tables(*old(state)).users.len() == 0)
                    &&& exists|now: i64, nanos: u32|
                        crate::auth::clock_reading(now, nanos) && #[trigger] crate::auth::issued(
                            resp.token@,
                            resp.expires_at@,
                            old(state).jwt_secret@,
                            resp.user_id@,
                            resp.username@,
                            resp.is_admin,
                            now,
                            nanos,
                        )
                },
                Err(e) => e == ApiError::Internal && (tables(*final(state)) == tables(*old(state)) || (registered(
                    tables(*old(state)),
                    tables(*final(state)),
                    *req,
                ) && exists|now: i64, nanos: u32|
                    crate::auth::clock_reading(now, nanos) && !#[trigger] crate::auth::token_owed(now, nanos))),
            },
        },
{
    let ghost mut issued_at: i64 = 0;
    let ghost mut issued_nanos: u32 = 0;
    if !state.auth_limiter.check(client, now_ms) {
        return Err(ApiError::TooManyRequests);
    }
    let r = match &mut state.storage_manager {
        None => Err(ApiError::Unavailable),
        Some(sm) => {
            if req.username.as_str().unicode_len() == 0 || req.email.as_str().unicode_len() == 0
                || req.password.as_str().unicode_len() == 0 {
                return Err(ApiError::BadRequest);
            }
            if sm.get_user_by_username(req.username.as_str()).is_some() || sm.email_taken(req.email.as_str()) {
                return Err(ApiError::Conflict);
            }
            let password_hash = match hash_password(req.password.as_str()) {
                Ok(h) => h,
                Err(_) => {
                    return Err(ApiError::Internal);
                },
            };
            let is_admin = sm.user_count() == 0;
            let user = match sm.create_user(
                req.username.as_str(),
                req.email.as_str(),
                password_hash.as_str(),
                is_admin,
            ) {
                Ok(u) => u,
                Err(_) => {
                    return Err(ApiError::Internal);
                },
            };
            let made = generate_token(
                state.jwt_secret.as_str(),
                user.user_id.as_str(),
                user.username.as_str(),
                user.is_admin,
            );
            proof {
                let (now, nanos) = choose|now: i64, nanos: u32|
                    crate::auth::clock_reading(now, nanos) && #[trigger] crate::auth::generate_outcome(
                        made,
                        state.jwt_secret@,
                        user.user_id@,
                        user.username@,
                        user.is_admin,
                        now,
                        nanos,
                    );
                issued_at = now;
                issued_nanos = nanos;
            }
            let token = match made {
                Ok(t) => t,
                Err(_) => {
                    assert(!crate::auth::token_owed(issued_at, issued_nanos));
                    return Err(ApiError::Internal);
                },
            };
            Ok(
                AuthResponse {
                    user_id: user.user_id,
                    username: user.username,
                    email: user.email,
                    is_admin: user.is_admin,
                    token: token.token,
                    expires_at: token.expires_at,
                },
            )
        },
    };
    proof {
        if r is Ok {
            assert(crate::auth::clock_reading(issued_at, issued_nanos));
            assert(crate::auth::issued(
                r->Ok_0.token@,
                r->Ok_0.expires_at@,
                old(state).jwt_secret@,
                r->Ok_0.user_id@,
                r->Ok_0.username@,
                r->Ok_0.is_admin,
                issued_at,
                issued_nanos,
            ));
        }
    }
    r
}

/// Why a login is turned away, if it is, as far as the store and the
/// password decide it.
pub open spec fn login_refusal(state: ApiState, client: Seq<char>, now_ms: u64, req: LoginRequest) -> Option<
    ApiError,
> {
    if !limiter_allows(state.auth_limiter, client, now_ms) {
        Some(ApiError::TooManyRequests)
    } else if state.storage_manager is None {
        Some(ApiError::Unavailable)
    } else {
        match first_match(tables(state).users, user_named(req.username@)) {
            None => Some(ApiError::Unauthorized),
            Some(u) => match crate::auth::verify_outcome(req.password@, u.password_hash@) {
                Err(_) => Some(ApiError::Internal),
                Ok(false) => Some(ApiError::Unauthorized),
                Ok(true) => None,
            },
        }
    }
}

/// Logs a user in. An unknown name and a wrong password are turned away
/// alike. Every request counts against the client's rate limit.
pub fn login(state: &mut ApiState, client: &str, now_ms: u64, req: &LoginRequest) -> (r: Result<
    AuthResponse,
    ApiError,
>)
    ensures
        final(state).jwt_secret == old(state).jwt_secret,
        final(state).storage_manager == old(state).storage_manager,
        counted(old(state).auth_limiter, final(state).auth_limiter, client@, now_ms),
        match login_refusal(*old(state), client@, now_ms, *req) {
            Some(e) => r == Err::<AuthResponse, ApiError>(e),
            None => match r {
                Ok(resp) => {
                    let u = first_match(tables(*old(state)).users, user_named(req.username@))->Some_0.user;
                    &&& resp.user_id == u.user_id
                    &&& resp.username == u.username
                    &&& resp.email == u.email
                    &&& resp.is_admin == u.is_admin
                    &&& exists|now: i64, nanos: u32|
                        crate::auth::clock_reading(now, nanos) && #[trigger] crate::auth::issued(
                            resp.token@,
                            resp.expires_at@,
                            old(state).jwt_secret@,
                            resp.user_id@,
                            resp.username@,
                            resp.is_admin,
                            now,
                            nanos,
                        )
                },
                Err(e) => e == ApiError::Internal && exists|now: i64, nanos: u32|
                    crate::auth::clock_reading(now, nanos) && !#[trigger] crate::auth::token_owed(now, nanos),
            },
        },
{
    let ghost mut issued_at: i64 = 0;
    let ghost mut issued_nanos: u32 = 0;
    if !state.auth_limiter.check(client, now_ms) {
        return Err(ApiError::TooManyRequests);
    }
    let r = match &state.storage_manager {
        None => Err(ApiError::Unavailable),
        Some(sm) => {
            let user = match sm.get_user_by_username(req.username.as_str()) {
                Some(u) => u,
                None => {
                    return Err(ApiError::Unauthorized);
                },
            };
            let password_hash = match sm.get_password_hash(req.username.as_str()) {
                Some(h) => h,
                None => {
                    return Err(ApiError::Unauthorized);
                },
            };
            match verify_password(req.password.as_str(), password_hash.as_str()) {
                Err(_) => {
                    return Err(ApiError::Internal);
                },
                Ok(valid) => {
                    if !valid {
                        return Err(ApiError::Unauthorized);
                    }
                },
            }
            let made = generate_token(
                state.jwt_secret.as_str(),
                user.user_id.as_str(),
                user.username.as_str(),
                user.is_admin,
            );
            proof {
                let (now, nanos) = choose|now: i64, nanos: u32|
                    crate::auth::clock_reading(now, nanos) && #[trigger] crate::auth::generate_outcome(
                        made,
                        state.jwt_secret@,
                        user.user_id@,
                        user.username@,
                        user.is_admin,
                        now,
                        nanos,
                    );
                issued_at = now;
                issued_nanos = nanos;
            }
            let token = match made {
                Ok(t) => t,
                Err(_) => {
                    assert(!crate::auth::token_owed(issued_at, issued_nanos));
                    return Err(ApiError::Internal);
                },
            };
            Ok(
                AuthResponse {
                    user_id: user.user_id,
                    username: user.username,
                    email: user.email,
                    is_admin: user.is_admin,
                    token: token.token,
                    expires_at: token.expires_at,
                },
            )
        },
    };
    proof {
        if r is Ok {
            assert(crate::auth::clock_reading(issued_at, issued_nanos));
            assert(crate::auth::issued(
                r->Ok_0.token@,
                r->Ok_0.expires_at@,
                old(state).jwt_secret@,
                r->Ok_0.user_id@,
                r->Ok_0.username@,
                r->Ok_0.is_admin,
                issued_at,
                issued_nanos,
            ));
        }
    }
    r
}

// ---------------------------------------------------------------------------
// Members and files
// ---------------------------------------------------------------------------

/// Why an authenticated endpoint turns a request away before it looks at
/// the store's contents: without a valid token, or while the node is not
/// configured.
pub open spec fn admitted(state: ApiState, authorization: HeaderValue, now: i64) -> Result<ClaimsView, ApiError> {
    match auth_outcome(state.jwt_secret@, authorization, now) {
        Err(e) => Err(e),
        Ok(c) => if state.storage_manager is None {
            Err(ApiError::Unavailable)
        } else {
            Ok(c)
        },
    }
}

/// One member in the listing of members.
#[derive(Debug)]
pub struct MemberInfo {
    pub user_id: String,
    pub username: String,
    pub is_admin: bool,
    pub created_at: String,
}

/// `list` shows the users, one by one.
pub open spec fn members_show(list: Seq<MemberInfo>, users: Seq<User>) -> bool {
    &&& list.len() == users.len()
    &&& forall|k: int|
        0 <= k < list.len() ==> {
            &&& (#[trigger] list[k]).user_id == users[k].user_id
            &&& list[k].username == users[k].username
            &&& list[k].is_admin == users[k].is_admin
            &&& list[k].created_at == users[k].created_at
        }
}

/// The members of the hub, newest first.
pub fn list_members(state: &ApiState, authorization: &HeaderValue, now: i64) -> (r: Result<
    Vec<MemberInfo>,
    ApiError,
>)
    ensures
        match admitted(*state, *authorization, now) {
            Err(e) => r == Err::<Vec<MemberInfo>, ApiError>(e),
            Ok(_) => r is Ok && members_show(r->Ok_0@, newest_first(users_of(tables(*state).users))),
        },
{
    let _claims = match validate_auth_header(state.jwt_secret.as_str(), authorization, now) {
        Ok(c) => c,
        Err(e) => {
            return Err(e);
        },
    };
    match &state.storage_manager {
        None => Err(ApiError::Unavailable),
        Some(sm) => {
            let users = sm.list_users();
            let mut r: Vec<MemberInfo> = Vec::new();
            let mut i: usize = 0;
            while i < users.len()
                invariant
                    i <= users.len(),
                    members_show(r@, users@.take(i as int)),
                decreases users.len() - i,
            {
                r.push(
                    MemberInfo {
                        user_id: users[i].user_id.clone(),
                        username: users[i].username.clone(),
                        is_admin: users[i].is_admin,
                        created_at: users[i].created_at.clone(),
                    },
                );
                i += 1;
            }
            assert(users@.take(users.len() as int) =~= users@);
            Ok(r)
        },
    }
}

/// The files that the requester may see: the requester's own and all
/// public ones, newest first.
pub fn list_files(state: &ApiState, authorization: &HeaderValue, now: i64) -> (r: Result<Vec<File>, ApiError>)
    ensures
        match admitted(*state, *authorization, now) {
            Err(e) => r == Err::<Vec<File>, ApiError>(e),
            Ok(c) => r is Ok && r->Ok_0@ == newest_first(
                tables(*state).files.filter(file_visible_to(Some(c.sub))),
            ),
        },
{
    let claims = match validate_auth_header(state.jwt_secret.as_str(), authorization, now) {
        Ok(c) => c,
        Err(e) => {
            return Err(e);
        },
    };
    match &state.storage_manager {
        None => Err(ApiError::Unavailable),
        Some(sm) => Ok(sm.list_files(Some(claims.sub.as_str()))),
    }
}

/// The name under which an uploaded part is stored: its file name, or
/// `upload` where it has none.
pub fn upload_name(file_name: Option<&str>) -> (r: String)
    ensures
        r@ == match file_name {
            Some(n) => n@,
            None => "upload"@,
        },
{
    match file_name {
        Some(n) => String::from_str(n),
        None => String::from_str("upload"),
    }
}

/// Whether the text of the `is_public` part asks for a public file: `true`
/// and `1` do.
pub fn parse_is_public(text: &str) -> (r: bool)
    ensures
        r == (text@ == "true"@ || text@ == "1"@),
{
    str_eq(text, "true") || str_eq(text, "1")
}

/// Checks an upload before anything is written: the requester must be
/// authenticated, name and contents must not be empty, the node must be
/// configured, and the name must be acceptable to the store.
pub fn check_upload(state: &ApiState, authorization: &HeaderValue, now: i64, file_name: &str, size_bytes: u64) -> (r:
    Result<Claims, ApiError>)
    ensures
        auth_view(r) == match auth_outcome(state.jwt_secret@, *authorization, now) {
            Err(e) => Err::<ClaimsView, ApiError>(e),
            Ok(c) => if file_name@.len() == 0 || size_bytes == 0 {
                Err(ApiError::BadRequest)
            } else if state.storage_manager is None {
                Err(ApiError::Unavailable)
            } else if !crate::storage_manager::filename_ok(file_name@) {
                Err(ApiError::BadRequest)
            } else {
                Ok(c)
            },
        },
{
    let claims = match validate_auth_header(state.jwt_secret.as_str(), authorization, now) {
        Ok(c) => c,
        Err(e) => {
            return Err(e);
        },
    };
    if file_name.unicode_len() == 0 || size_bytes == 0 {
        return Err(ApiError::BadRequest);
    }
    if state.storage_manager.is_none() {
        return Err(ApiError::Unavailable);
    }
    if crate::storage_manager::validate_filename(file_name).is_err() {
        return Err(ApiError::BadRequest);
    }
    Ok(claims)
}

/// What the store answered to an upload, seen from the endpoint's answer:
/// a bad request stands for a malformed name, any other failure for a
/// broken rule of the store.
pub open spec fn upload_result(r: Result<File, ApiError>) -> Result<File, StorageError> {
    match r {
        Ok(f) => Ok(f),
        Err(ApiError::BadRequest) => Err(StorageError::Validation),
        Err(_) => Err(StorageError::Integrity),
    }
}

/// Stores the metadata of an upload whose contents the caller has written,
/// after [`check_upload`] let it pass. A malformed name is a bad request, a
/// broken rule of the store an internal error.
pub fn upload_file(state: &mut ApiState, uploader: &Claims, file_name: &str, file_data: &[u8], is_public: bool) -> (r:
    Result<File, ApiError>)
    ensures
        final(state).jwt_secret == old(state).jwt_secret,
        (final(state).storage_manager is Some) == (old(state).storage_manager is Some),
        old(state).storage_manager is Some && consistent(tables(*old(state))) ==> consistent(
            tables(*final(state)),
        ),
        old(state).storage_manager is None ==> r == Err::<File, ApiError>(ApiError::Unavailable),
        old(state).storage_manager is Some ==> exists|file_id: Seq<char>, at: Seq<char>|
            #[trigger] upload_outcome(
                tables(*old(state)),
                tables(*final(state)),
                upload_result(r),
                file_id,
                at,
                uploader.sub@,
                file_name@,
                file_data@.len() as u64,
                is_public,
            ),
        r is Err && old(state).storage_manager is Some ==> r->Err_0 == ApiError::BadRequest || r->Err_0
            == ApiError::Internal,
{
    let ghost mut id_used: Seq<char> = Seq::empty();
    let ghost mut at_used: Seq<char> = Seq::empty();
    let r = match &mut state.storage_manager {
        None => Err(ApiError::Unavailable),
        Some(sm) => {
            let ghost before = sm@;
            let res = sm.upload_file(uploader.sub.as_str(), file_name, file_data, is_public);
            let ghost after = sm@;
            let ghost stored = res;
            let r = match res {
                Ok(f) => Ok(f),
                Err(StorageError::Validation) => Err(ApiError::BadRequest),
                Err(_) => Err(ApiError::Internal),
            };
            proof {
                let (file_id, at) = choose|file_id: Seq<char>, at: Seq<char>|
                    #[trigger] upload_outcome(
                        before,
                        after,
                        stored,
                        file_id,
                        at,
                        uploader.sub@,
                        file_name@,
                        file_data@.len() as u64,
                        is_public,
                    );
                id_used = file_id;
                at_used = at;
                assert(upload_result(r) == stored);
            }
            r
        },
    };
    proof {
        if old(state).storage_manager is Some {
            assert(upload_outcome(
                tables(*old(state)),
                tables(*state),
                upload_result(r),
                id_used,
                at_used,
                uploader.sub@,
                file_name@,
                file_data@.len() as u64,
                is_public,
            ));
        }
    }
    r
}

/// The media type for a lower-case file extension, as downloads declare it.
pub open spec fn download_mime(ext: Seq<char>) -> Seq<char> {
    if ext == "jpg"@ || ext == "jpeg"@ {
        "image/jpeg"@
    } else if ext == "png"@ {
        "image/png"@
    } else if ext == "gif"@ {
        "image/gif"@
    } else if ext == "webp"@ {
        "image/webp"@
    } else if ext == "svg"@ {
        "image/svg+xml"@
    } else if ext == "bmp"@ {
        "image/bmp"@
    } else if ext == "mp4"@ || ext == "m4v"@ {
        "video/mp4"@
    } else if ext == "webm"@ {
        "video/webm"@
    } else if ext == "mov"@ {
        "video/quicktime"@
    } else if ext == "avi"@ {
        "video/x-msvideo"@
    } else if ext == "mkv"@ {
        "video/x-matroska"@
    } else if ext == "ogv"@ {
        "video/ogg"@
    } else if ext == "3gp"@ {
        "video/3gpp"@
    } else if ext == "pdf"@ {
        "application/pdf"@
    } else if ext == "txt"@ {
        "text/plain"@
    } else if ext == "html"@ || ext == "htm"@ {
        "text/html"@
    } else if ext == "json"@ {
        "application/json"@
    } else if ext == "zip"@ {
        "application/zip"@
    } else {
        "application/octet-stream"@
    }
}

/// The media type for a lower-case file extension, as downloads declare it; any other text
/// is answered as an unknown extension.
pub fn mime_for_extension(ext: &str) -> (r: String)
    ensures
        r@ == download_mime(ext@),
{
    if str_eq(ext, "jpg") || str_eq(ext, "jpeg") {
        String::from_str("image/jpeg")
    } else if str_eq(ext, "png") {
        String::from_str("image/png")
    } else if str_eq(ext, "gif") {
        String::from_str("image/gif")
    } else if str_eq(ext, "webp") {
        String::from_str("image/webp")
    } else if str_eq(ext, "svg") {
        String::from_str("image/svg+xml")
    } else if str_eq(ext, "bmp") {
        String::from_str("image/bmp")
    } else if str_eq(ext, "mp4") || str_eq(ext, "m4v") {
        String::from_str("video/mp4")
    } else if str_eq(ext, "webm") {
        String::from_str("video/webm")
    } else if str_eq(ext, "mov") {
        String::from_str("video/quicktime")
    } else if str_eq(ext, "avi") {
        String::from_str("video/x-msvideo")
    } else if str_eq(ext, "mkv") {
        String::from_str("video/x-matroska")
    } else if str_eq(ext, "ogv") {
        String::from_str("video/ogg")
    } else if str_eq(ext, "3gp") {
        String::from_str("video/3gpp")
    } else if str_eq(ext, "pdf") {
        String::from_str("application/pdf")
    } else if str_eq(ext, "txt") {
        String::from_str("text/plain")
    } else if str_eq(ext, "html") || str_eq(ext, "htm") {
        String::from_str("text/html")
    } else if str_eq(ext, "json") {
        String::from_str("application/json")
    } else if str_eq(ext, "zip") {
        String::from_str("application/zip")
    } else {
        String::from_str("application/octet-stream")
    }
}

/// The media type that a download of the file called `name` declares.
pub fn mime_from_ext(name: &str) -> (r: String)
    ensures
        r@ == download_mime(unicode_lowercase(after_last(name@, '.'))),
{
    let e = crate::storage_manager::lowercase_extension(name);
    mime_for_extension(e.as_str())
}

/// The disposition of a download: images and videos are shown in place,
/// everything else is offered for saving.
pub open spec fn disposition_text(content_type: Seq<char>, name: Seq<char>) -> Seq<char> {
    let kind = if occurs_at(content_type, "image/"@, 0) || occurs_at(content_type, "video/"@, 0) {
        "inline; filename=\""@
    } else {
        "attachment; filename=\""@
    };
    kind + name + "\""@
}

/// The disposition of a download (see [`disposition_text`]).
pub fn content_disposition(content_type: &str, name: &str) -> (r: String)
    ensures
        r@ == disposition_text(content_type@, name@),
{
    let ct = to_chars(content_type);
    let image = to_chars("image/");
    let video = to_chars("video/");
    let mut r = if matches_at(&ct, &image, 0) || matches_at(&ct, &video, 0) {
        String::from_str("inline; filename=\"")
    } else {
        String::from_str("attachment; filename=\"")
    };
    r.append(name);
    r.append("\"");
    r
}

/// What a download answers with, besides the contents that the caller
/// reads from disk.
#[derive(Debug)]
pub struct Download {
    pub file: File,
    pub content_type: String,
    pub content_disposition: String,
}

/// Decides a download. Whatever the store objects to (a malformed name, no
/// such file, no permission) is answered alike, so that nobody learns of a
/// file he may not see.
pub fn download_file(state: &ApiState, authorization: &HeaderValue, now: i64, name: &str) -> (r: Result<
    Download,
    ApiError,
>)
    ensures
        match admitted(*state, *authorization, now) {
            Err(e) => r == Err::<Download, ApiError>(e),
            Ok(c) => match tables(*state).read_outcome(c.sub, name@) {
                Err(_) => r == Err::<Download, ApiError>(ApiError::NotFound),
                Ok(f) => {
                    &&& r is Ok
                    &&& r->Ok_0.file == f
                    &&& r->Ok_0.content_type@ == download_mime(
                        unicode_lowercase(after_last(name@, '.')),
                    )
                    &&& r->Ok_0.content_disposition@ == disposition_text(
                        r->Ok_0.content_type@,
                        name@,
                    )
                },
            },
        },
{
    let claims = match validate_auth_header(state.jwt_secret.as_str(), authorization, now) {
        Ok(c) => c,
        Err(e) => {
            return Err(e);
        },
    };
    match &state.storage_manager {
        None => Err(ApiError::Unavailable),
        Some(sm) => match sm.read_file(claims.sub.as_str(), name) {
            Err(_) => Err(ApiError::NotFound),
            Ok(file) => {
                let content_type = mime_from_ext(name);
                let content_disposition = content_disposition(content_type.as_str(), name);
                Ok(Download { file, content_type, content_disposition })
            },
        },
    }
}

/// Deletes a file for its owner or an administrator. Whatever the store
/// objects to is answered alike.
pub fn delete_file_handler(state: &mut ApiState, authorization: &HeaderValue, now: i64, name: &str) -> (r:
    Result<(), ApiError>)
    ensures
        final(state).jwt_secret == old(state).jwt_secret,
        (final(state).storage_manager is Some) == (old(state).storage_manager is Some),
        old(state).storage_manager is Some && consistent(tables(*old(state))) ==> consistent(
            tables(*final(state)),
        ),
        match admitted(*old(state), *authorization, now) {
            Err(e) => r == Err::<(), ApiError>(e) && final(state).storage_manager == old(state).storage_manager,
            Ok(c) => delete_file_outcome(
                tables(*old(state)),
                tables(*final(state)),
                match r {
                    Ok(_) => Ok(()),
                    Err(_) => Err(tables(*old(state)).change_target(c.sub, name@)->Err_0),
                },
                c.sub,
                name@,
            ) && (r is Err ==> r->Err_0 == ApiError::NotFound),
        },
{
    let claims = match validate_auth_header(state.jwt_secret.as_str(), authorization, now) {
        Ok(c) => c,
        Err(e) => {
            return Err(e);
        },
    };
    match &mut state.storage_manager {
        None => Err(ApiError::Unavailable),
        Some(sm) => match sm.delete_file(claims.sub.as_str(), name) {
            Ok(_) => Ok(()),
            Err(_) => Err(ApiError::NotFound),
        },
    }
}

/// Makes a file public or private for its owner or an administrator.
/// Whatever the store objects to is answered alike.
pub fn update_file_visibility_handler(
    state: &mut ApiState,
    authorization: &HeaderValue,
    now: i64,
    name: &str,
    body: &UpdateFileRequest,
) -> (r: Result<(), ApiError>)
    ensures
        final(state).jwt_secret == old(state).jwt_secret,
        (final(state).storage_manager is Some) == (old(state).storage_manager is Some),
        old(state).storage_manager is Some && consistent(tables(*old(state))) ==> consistent(
            tables(*final(state)),
        ),
        match admitted(*old(state), *authorization, now) {
            Err(e) => r == Err::<(), ApiError>(e) && final(state).storage_manager == old(state).storage_manager,
            Ok(c) => visibility_outcome(
                tables(*old(state)),
                tables(*final(state)),
                match r {
                    Ok(_) => Ok(()),
                    Err(_) => Err(tables(*old(state)).change_target(c.sub, name@)->Err_0),
                },
                c.sub,
                name@,
                body.is_public,
            ) && (r is Err ==> r->Err_0 == ApiError::NotFound),
        },
{
    let claims = match validate_auth_header(state.jwt_secret.as_str(), authorization, now) {
        Ok(c) => c,
        Err(e) => {
            return Err(e);
        },
    };
    match &mut state.storage_manager {
        None => Err(ApiError::Unavailable),
        Some(sm) => match sm.update_file_visibility(claims.sub.as_str(), name, body.is_public) {
            Ok(_) => Ok(()),
            Err(_) => Err(ApiError::NotFound),
        },
    }
}

// ---------------------------------------------------------------------------
// Conversations and messages
// ---------------------------------------------------------------------------

/// A conversation with its members, as creating one answers.
#[derive(Debug)]
pub struct ConversationCreated {
    pub conversation: Conversation,
    pub members: Vec<ConversationMember>,
}

/// Whether a request to create a conversation is well-formed: a direct
/// conversation names its peer, a group its name and its members, and
/// there is no other kind.
pub open spec fn create_request_ok(req: CreateConversationRequest) -> bool {
    if req.kind@ == "dm"@ {
        req.peer_user_id is Some
    } else if req.kind@ == "group"@ {
        req.name is Some && req.member_ids is Some
    } else {
        false
    }
}

/// What the store answered, seen from the handler's answer: the
/// conversation, or the store's refusal.
pub open spec fn store_result(r: Result<ConversationCreated, ApiError>) -> Result<Conversation, StorageError> {
    match r {
        Ok(made) => Ok(made.conversation),
        Err(_) => Err(StorageError::Integrity),
    }
}

/// Creates a conversation, or returns the direct conversation that exists.
/// A refusal of the store is an internal error, and nothing is stored.
pub fn create_conversation(state: &mut ApiState, authorization: &HeaderValue, now: i64, req: &CreateConversationRequest) -> (r:
    Result<ConversationCreated, ApiError>)
    ensures
        final(state).jwt_secret == old(state).jwt_secret,
        (final(state).storage_manager is Some) == (old(state).storage_manager is Some),
        old(state).storage_manager is Some && consistent(tables(*old(state))) ==> consistent(
            tables(*final(state)),
        ),
        match admitted(*old(state), *authorization, now) {
            Err(e) => r == Err::<ConversationCreated, ApiError>(e) && final(state).storage_manager
                == old(state).storage_manager,
            Ok(c) => if !create_request_ok(*req) {
                r == Err::<ConversationCreated, ApiError>(ApiError::BadRequest) && final(state).storage_manager == old(state).storage_manager
            } else {
                &&& r matches Ok(made) ==> made.members@ == member_listing(
                    tables(*final(state)),
                    made.conversation.conversation_id@,
                )
                &&& r matches Err(e) ==> e == ApiError::Internal
                &&& exists|id: Seq<char>, at: Seq<char>|
                    #![trigger create_dm_outcome(tables(*old(state)), tables(*final(state)), store_result(r), id, at, c.sub, req.peer_user_id->Some_0@)]
                    #![trigger create_group_outcome(tables(*old(state)), tables(*final(state)), store_result(r), id, at, c.sub, req.name->Some_0@, string_views(req.member_ids->Some_0@))]
                    if req.kind@ == "dm"@ {
                        create_dm_outcome(
                            tables(*old(state)),
                            tables(*final(state)),
                            store_result(r),
                            id,
                            at,
                            c.sub,
                            req.peer_user_id->Some_0@,
                        )
                    } else {
                        create_group_outcome(
                            tables(*old(state)),
                            tables(*final(state)),
                            store_result(r),
                            id,
                            at,
                            c.sub,
                            req.name->Some_0@,
                            string_views(req.member_ids->Some_0@),
                        )
                    }
            },
        },
{
    let claims = match validate_auth_header(state.jwt_secret.as_str(), authorization, now) {
        Ok(c) => c,
        Err(e) => {
            return Err(e);
        },
    };
    let ghost mut id_used: Seq<char> = Seq::empty();
    let ghost mut at_used: Seq<char> = Seq::empty();
    let ghost mut stored: Result<Conversation, StorageError> = Err(StorageError::Integrity);
    let r = match &mut state.storage_manager {
        None => {
            return Err(ApiError::Unavailable);
        },
        Some(sm) => {
            let ghost before = sm@;
            if str_eq(req.kind.as_str(), "dm") {
                let peer = match &req.peer_user_id {
                    Some(p) => p,
                    None => {
                        return Err(ApiError::BadRequest);
                    },
                };
                let res = sm.create_dm_conversation(claims.sub.as_str(), peer.as_str());
                proof {
                    let (id, at) = choose|id: Seq<char>, at: Seq<char>|
                        create_dm_outcome(before, sm@, res, id, at, claims.sub@, peer@);
                    id_used = id;
                    at_used = at;
                    stored = res;
                }
                match res {
                    Err(_) => Err(ApiError::Internal),
                    Ok(conversation) => {
                        let members = sm.get_conversation_members(
                            conversation.conversation_id.as_str(),
                        );
                        Ok(ConversationCreated { conversation, members })
                    },
                }
            } else if str_eq(req.kind.as_str(), "group") {
                let name = match &req.name {
                    Some(n) => n,
                    None => {
                        return Err(ApiError::BadRequest);
                    },
                };
                let member_ids = match &req.member_ids {
                    Some(m) => m,
                    None => {
                        return Err(ApiError::BadRequest);
                    },
                };
                let res = sm.create_group_conversation(
                    claims.sub.as_str(),
                    name.as_str(),
                    member_ids.as_slice(),
                );
                proof {
                    let (id, at) = choose|id: Seq<char>, at: Seq<char>|
                        create_group_outcome(
                            before,
                            sm@,
                            res,
                            id,
                            at,
                            claims.sub@,
                            name@,
                            string_views(member_ids@),
                        );
                    id_used = id;
                    at_used = at;
                    stored = res;
                }
                match res {
                    Err(_) => Err(ApiError::Internal),
                    Ok(conversation) => {
                        let members = sm.get_conversation_members(
                            conversation.conversation_id.as_str(),
                        );
                        Ok(ConversationCreated { conversation, members })
                    },
                }
            } else {
                return Err(ApiError::BadRequest);
            }
        },
    };
    proof {
        let c = admitted(*old(state), *authorization, now)->Ok_0;
        assert(c.sub == claims.sub@);
        assert(store_result(r) == stored);
        if req.kind@ == "dm"@ {
            assert(create_dm_outcome(
                tables(*old(state)),
                tables(*state),
                store_result(r),
                id_used,
                at_used,
                c.sub,
                req.peer_user_id->Some_0@,
            ));
        } else {
            assert(create_group_outcome(
                tables(*old(state)),
                tables(*state),
                store_result(r),
                id_used,
                at_used,
                c.sub,
                req.name->Some_0@,
                string_views(req.member_ids->Some_0@),
            ));
        }
    }
    r
}

/// The conversations of the requester, the one with the latest activity
/// first, each with its members and its most recent message.
pub fn list_conversations_handler(state: &ApiState, authorization: &HeaderValue, now: i64) -> (r: Result<
    Vec<ConversationWithMembers>,
    ApiError,
>)
    ensures
        match admitted(*state, *authorization, now) {
            Err(e) => r == Err::<Vec<ConversationWithMembers>, ApiError>(e),
            Ok(c) => r is Ok && conversations_show(
                r->Ok_0@,
                conversations_of(tables(*state), c.sub),
                tables(*state),
            ),
        },
{
    let claims = match validate_auth_header(state.jwt_secret.as_str(), authorization, now) {
        Ok(c) => c,
        Err(e) => {
            return Err(e);
        },
    };
    match &state.storage_manager {
        None => Err(ApiError::Unavailable),
        Some(sm) => Ok(sm.list_conversations(claims.sub.as_str())),
    }
}

/// The texts of an optional list, none for no list.
pub open spec fn listed(v: Option<Vec<String>>) -> Seq<Seq<char>> {
    match v {
        Some(v) => string_views(v@),
        None => Seq::empty(),
    }
}

/// `after` is `before` with the conversation renamed, where a name is
/// given.
pub open spec fn renamed(before: Tables, after: Tables, conversation: Seq<char>, name: Option<Seq<char>>) -> bool {
    match name {
        Some(n) => exists|at: Seq<char>| rename_outcome(before, after, conversation, n, at),
        None => after == before,
    }
}

/// `after` is `before` with the users `ids` added to the conversation one
/// after the other, every addition having succeeded.
pub open spec fn members_added(before: Tables, after: Tables, conversation: Seq<char>, ids: Seq<Seq<char>>) -> bool
    decreases ids.len(),
{
    if ids.len() == 0 {
        after == before
    } else {
        exists|mid: Tables, at: Seq<char>|
            members_added(before, mid, conversation, ids.drop_last()) && #[trigger] add_member_outcome(
                mid,
                after,
                Ok(()),
                conversation,
                ids.last(),
                at,
            )
    }
}

/// `t` with the users `ids` removed from the conversation.
pub open spec fn members_removed(t: Tables, conversation: Seq<char>, ids: Seq<Seq<char>>) -> Tables
    decreases ids.len(),
{
    if ids.len() == 0 {
        t
    } else {
        let u = members_removed(t, conversation, ids.drop_last());
        Tables { members: u.members.filter(not_member_of(conversation, ids.last())), ..u }
    }
}

/// What an update does to the tables. The changes are applied in their
/// order: the new name, the members to add, the members to remove. The
/// update stops, and fails, at the first user who cannot be added; what
/// was changed until then stays.
pub open spec fn update_outcome(
    before: Tables,
    after: Tables,
    ok: bool,
    conversation: Seq<char>,
    name: Option<Seq<char>>,
    add: Seq<Seq<char>>,
    remove: Seq<Seq<char>>,
) -> bool {
    exists|named: Tables, added: Tables, done: int|
        #![trigger renamed(before, named, conversation, name), members_added(named, added, conversation, add.take(done))]
        {
            &&& renamed(before, named, conversation, name)
            &&& 0 <= done <= add.len()
            &&& members_added(named, added, conversation, add.take(done))
            &&& if ok {
                done == add.len() && after == members_removed(added, conversation, remove)
            } else {
                done < add.len() && after == added && exists|at: Seq<char>|
                    #[trigger] add_member_outcome(
                        added,
                        added,
                        Err(StorageError::Integrity),
                        conversation,
                        add[done],
                        at,
                    )
            }
        }
}

/// A renaming is a renaming.
proof fn lemma_renamed(before: Tables, after: Tables, conversation: Seq<char>, name: Seq<char>, at: Seq<char>)
    requires
        rename_outcome(before, after, conversation, name, at),
    ensures
        renamed(before, after, conversation, Some(name)),
{
    assert(exists|a: Seq<char>| rename_outcome(before, after, conversation, name, a));
}

/// One more user added after others were added.
proof fn lemma_member_added(
    before: Tables,
    mid: Tables,
    after: Tables,
    conversation: Seq<char>,
    ids: Seq<Seq<char>>,
    at: Seq<char>,
)
    requires
        ids.len() > 0,
        members_added(before, mid, conversation, ids.drop_last()),
        add_member_outcome(mid, after, Ok(()), conversation, ids.last(), at),
    ensures
        members_added(before, after, conversation, ids),
{
}

/// Adds the users of `ids` to the conversation until one cannot be added.
fn add_members(sm: &mut StorageManager, conversation_id: &str, ids: &Vec<String>) -> (done: usize)
    ensures
        done <= ids.len(),
        members_added(
            old(sm)@,
            final(sm)@,
            conversation_id@,
            string_views(ids@).take(done as int),
        ),
        done < ids.len() ==> exists|at: Seq<char>|
            #[trigger] add_member_outcome(
                final(sm)@,
                final(sm)@,
                Err(StorageError::Integrity),
                conversation_id@,
                string_views(ids@)[done as int],
                at,
            ),
        final(sm).install_path_view() == old(sm).install_path_view(),
        final(sm).node() == old(sm).node(),
        consistent(old(sm)@) ==> consistent(final(sm)@),
{
    let ghost all = string_views(ids@);
    let mut i: usize = 0;
    proof {
        assert(all.take(0) =~= Seq::<Seq<char>>::empty());
    }
    while i < ids.len()
        invariant
            i <= ids.len(),
            all == string_views(ids@),
            members_added(old(sm)@, sm@, conversation_id@, all.take(i as int)),
            sm.install_path_view() == old(sm).install_path_view(),
            sm.node() == old(sm).node(),
            consistent(old(sm)@) ==> consistent(sm@),
        decreases ids.len() - i,
    {
        let ghost prev = sm@;
        let r = sm.add_group_member(conversation_id, ids[i].as_str());
        proof {
            let at = choose|at: Seq<char>|
                add_member_outcome(prev, sm@, r, conversation_id@, ids@[i as int]@, at);
            assert(all[i as int] == ids@[i as int]@);
            if r is Ok {
                let next = all.take(i + 1);
                assert(next.drop_last() =~= all.take(i as int));
                assert(next.last() == all[i as int]);
                assert(add_member_outcome(prev, sm@, r, conversation_id@, next.last(), at));
                assert(add_member_outcome(prev, sm@, Ok(()), conversation_id@, next.last(), at));
                assert(members_added(old(sm)@, prev, conversation_id@, next.drop_last()));
                lemma_member_added(old(sm)@, prev, sm@, conversation_id@, next, at);
            } else {
                assert(sm@ == prev);
                assert(add_member_outcome(
                    sm@,
                    sm@,
                    Err(StorageError::Integrity),
                    conversation_id@,
                    all[i as int],
                    at,
                ));
            }
        }
        if r.is_err() {
            return i;
        }
        i += 1;
    }
    proof {
        assert(all.take(ids.len() as int) =~= all);
    }
    i
}

/// Removes the users of `ids` from the conversation.
fn remove_members(sm: &mut StorageManager, conversation_id: &str, ids: &Vec<String>)
    ensures
        final(sm)@ == members_removed(old(sm)@, conversation_id@, string_views(ids@)),
        final(sm).install_path_view() == old(sm).install_path_view(),
        final(sm).node() == old(sm).node(),
        consistent(old(sm)@) ==> consistent(final(sm)@),
{
    let ghost all = string_views(ids@);
    let mut i: usize = 0;
    proof {
        assert(all.take(0) =~= Seq::<Seq<char>>::empty());
    }
    while i < ids.len()
        invariant
            i <= ids.len(),
            all == string_views(ids@),
            sm@ == members_removed(old(sm)@, conversation_id@, all.take(i as int)),
            sm.install_path_view() == old(sm).install_path_view(),
            sm.node() == old(sm).node(),
            consistent(old(sm)@) ==> consistent(sm@),
        decreases ids.len() - i,
    {
        proof {
            let next = all.take(i + 1);
            assert(next.drop_last() =~= all.take(i as int));
            assert(next.last() == ids@[i as int]@);
        }
        sm.remove_group_member(conversation_id, ids[i].as_str());
        i += 1;
    }
    proof {
        assert(all.take(ids.len() as int) =~= all);
    }
}

/// Applies the changes of an update request in their order: the new name,
/// the members to add, the members to remove. Stops at the first member
/// that cannot be added.
fn apply_update(sm: &mut StorageManager, conversation_id: &str, req: &UpdateConversationRequest) -> (r: Result<
    (),
    ApiError,
>)
    ensures
        update_outcome(
            old(sm)@,
            final(sm)@,
            r is Ok,
            conversation_id@,
            opt_text(req.name),
            listed(req.add_members),
            listed(req.remove_members),
        ),
        final(sm).install_path_view() == old(sm).install_path_view(),
        final(sm).node() == old(sm).node(),
        consistent(old(sm)@) ==> consistent(final(sm)@),
        r is Err ==> r->Err_0 == ApiError::Internal,
{
    match &req.name {
        Some(name) => {
            sm.rename_conversation(conversation_id, name.as_str());
            proof {
                let at = choose|at: Seq<char>|
                    rename_outcome(old(sm)@, sm@, conversation_id@, name@, at);
                assert(rename_outcome(old(sm)@, sm@, conversation_id@, name@, at));
                assert(opt_text(req.name) == Some(name@));
                lemma_renamed(old(sm)@, sm@, conversation_id@, name@, at);
            }
        },
        None => {
            proof {
                assert(renamed(old(sm)@, sm@, conversation_id@, opt_text(req.name)));
            }
        },
    }
    let ghost named = sm@;
    let ghost add = listed(req.add_members);
    proof {
        assert(renamed(old(sm)@, named, conversation_id@, opt_text(req.name)));
    }
    let mut complete = true;
    let ghost mut done: int = 0;
    match &req.add_members {
        Some(ids) => {
            let n = add_members(sm, conversation_id, ids);
            complete = n == ids.len();
            proof {
                done = n as int;
            }
        },
        None => {
            proof {
                assert(add.take(0) =~= Seq::<Seq<char>>::empty());
            }
        },
    }
    let ghost added = sm@;
    proof {
        assert(members_added(named, added, conversation_id@, add.take(done)));
    }
    if !complete {
        proof {
            assert(update_outcome(
                old(sm)@,
                sm@,
                false,
                conversation_id@,
                opt_text(req.name),
                add,
                listed(req.remove_members),
            ));
        }
        return Err(ApiError::Internal);
    }
    match &req.remove_members {
        Some(ids) => {
            remove_members(sm, conversation_id, ids);
        },
        None => {},
    }
    proof {
        assert(add.take(add.len() as int) =~= add);
        assert(update_outcome(
            old(sm)@,
            sm@,
            true,
            conversation_id@,
            opt_text(req.name),
            add,
            listed(req.remove_members),
        ));
    }
    Ok(())
}

/// Renames a conversation and adds and removes members, for a member of
/// it (see [`update_outcome`]), and answers with the members that the
/// conversation then has.
pub fn update_conversation(
    state: &mut ApiState,
    authorization: &HeaderValue,
    now: i64,
    conversation_id: &str,
    req: &UpdateConversationRequest,
) -> (r: Result<Vec<ConversationMember>, ApiError>)
    ensures
        final(state).jwt_secret == old(state).jwt_secret,
        (final(state).storage_manager is Some) == (old(state).storage_manager is Some),
        old(state).storage_manager is Some && consistent(tables(*old(state))) ==> consistent(
            tables(*final(state)),
        ),
        match admitted(*old(state), *authorization, now) {
            Err(e) => r == Err::<Vec<ConversationMember>, ApiError>(e) && final(state).storage_manager == old(state).storage_manager,
            Ok(c) => if !tables(*old(state)).is_member(conversation_id@, c.sub) {
                r == Err::<Vec<ConversationMember>, ApiError>(ApiError::Forbidden) && final(state).storage_manager == old(state).storage_manager
            } else {
                &&& update_outcome(
                    tables(*old(state)),
                    tables(*final(state)),
                    r is Ok,
                    conversation_id@,
                    opt_text(req.name),
                    listed(req.add_members),
                    listed(req.remove_members),
                )
                &&& match r {
                    Ok(members) => members@ == member_listing(tables(*final(state)), conversation_id@),
                    Err(e) => e == ApiError::Internal,
                }
            },
        },
{
    let claims = match validate_auth_header(state.jwt_secret.as_str(), authorization, now) {
        Ok(c) => c,
        Err(e) => {
            return Err(e);
        },
    };
    match &mut state.storage_manager {
        None => Err(ApiError::Unavailable),
        Some(sm) => {
            if !sm.is_conversation_member(conversation_id, claims.sub.as_str()) {
                return Err(ApiError::Forbidden);
            }
            match apply_update(sm, conversation_id, req) {
                Err(e) => Err(e),
                Ok(_) => Ok(sm.get_conversation_members(conversation_id)),
            }
        },
    }
}

/// What the store answered to a message, seen from the endpoint's answer.
pub open spec fn send_result(r: Result<BroadcastMessage, ApiError>, t: Tables, message_id: Seq<char>, conversation: Seq<
    char,
>, sender: Seq<char>) -> Result<Message, StorageError> {
    match r {
        Ok(b) => Ok(b.message),
        Err(_) => if !t.is_member(conversation, sender) {
            Err(StorageError::PermissionDenied)
        } else {
            Err(StorageError::Integrity)
        },
    }
}

/// Sends a message to a conversation and returns the event for the
/// subscribers. Only a member may send.
pub fn send_message(
    state: &mut ApiState,
    authorization: &HeaderValue,
    now: i64,
    conversation_id: &str,
    req: &SendMessageRequest,
) -> (r: Result<BroadcastMessage, ApiError>)
    ensures
        final(state).jwt_secret == old(state).jwt_secret,
        old(state).storage_manager is Some && consistent(tables(*old(state))) ==> consistent(
            tables(*final(state)),
        ),
        match auth_outcome(old(state).jwt_secret@, *authorization, now) {
            Err(e) => r == Err::<BroadcastMessage, ApiError>(e) && final(state).storage_manager
                == old(state).storage_manager,
            Ok(c) => if req.body@.len() == 0 && req.attachment_ids@.len() == 0 {
                r == Err::<BroadcastMessage, ApiError>(ApiError::BadRequest) && final(state).storage_manager == old(state).storage_manager
            } else if old(state).storage_manager is None {
                r == Err::<BroadcastMessage, ApiError>(ApiError::Unavailable) && final(state).storage_manager is None
            } else {
                &&& final(state).storage_manager is Some
                &&& r matches Ok(b) ==> b.conversation_id@ == conversation_id@
                &&& r matches Err(e) ==> e == if tables(*old(state)).is_member(
                    conversation_id@,
                    c.sub,
                ) {
                    ApiError::Internal
                } else {
                    ApiError::Forbidden
                }
                &&& exists|id: Seq<char>, at: Seq<char>|
                    #[trigger] create_message_outcome(
                        tables(*old(state)),
                        tables(*final(state)),
                        send_result(r, tables(*old(state)), id, conversation_id@, c.sub),
                        id,
                        at,
                        conversation_id@,
                        c.sub,
                        req.body@,
                        string_views(req.attachment_ids@),
                    )
            },
        },
{
    let claims = match validate_auth_header(state.jwt_secret.as_str(), authorization, now) {
        Ok(c) => c,
        Err(e) => {
            return Err(e);
        },
    };
    if req.body.as_str().unicode_len() == 0 && req.attachment_ids.len() == 0 {
        return Err(ApiError::BadRequest);
    }
    let ghost mut id_used: Seq<char> = Seq::empty();
    let ghost mut at_used: Seq<char> = Seq::empty();
    let r = match &mut state.storage_manager {
        None => {
            return Err(ApiError::Unavailable);
        },
        Some(sm) => {
            let ghost before = sm@;
            let res = sm.create_message(
                conversation_id,
                claims.sub.as_str(),
                req.body.as_str(),
                req.attachment_ids.as_slice(),
            );
            let ghost stored = res;
            let ghost after = sm@;
            let r = match res {
                Ok(message) => Ok(
                    BroadcastMessage { conversation_id: String::from_str(conversation_id), message },
                ),
                Err(StorageError::PermissionDenied) => Err(ApiError::Forbidden),
                Err(_) => Err(ApiError::Internal),
            };
            proof {
                let (id, at) = choose|id: Seq<char>, at: Seq<char>|
                    create_message_outcome(
                        before,
                        after,
                        stored,
                        id,
                        at,
                        conversation_id@,
                        claims.sub@,
                        req.body@,
                        string_views(req.attachment_ids@),
                    );
                id_used = id;
                at_used = at;
                assert(send_result(r, before, id, conversation_id@, claims.sub@) == stored);
            }
            r
        },
    };
    proof {
        let c = auth_outcome(old(state).jwt_secret@, *authorization, now)->Ok_0;
        assert(c.sub == claims.sub@);
        assert(create_message_outcome(
            tables(*old(state)),
            tables(*state),
            send_result(r, tables(*old(state)), id_used, conversation_id@, c.sub),
            id_used,
            at_used,
            conversation_id@,
            c.sub,
            req.body@,
            string_views(req.attachment_ids@),
        ));
    }
    r
}

/// The page size that a history request asks for: fifty where it names
/// none, and never more than a hundred.
pub open spec fn requested_page(limit: Option<u32>) -> u32 {
    match limit {
        None => DEFAULT_PAGE,
        Some(n) => if n > MAX_PAGE {
            MAX_PAGE
        } else {
            n
        },
    }
}

/// The page size that a history request asks for.
pub fn effective_limit(limit: Option<u32>) -> (n: u32)
    ensures
        n == requested_page(limit),
        n <= MAX_PAGE,
{
    match limit {
        None => DEFAULT_PAGE,
        Some(n) => if n > MAX_PAGE {
            MAX_PAGE
        } else {
            n
        },
    }
}

/// One page of the history of a conversation, for a member of it.
pub fn get_messages(state: &ApiState, authorization: &HeaderValue, now: i64, conversation_id: &str, query: &MessagesQuery) -> (r:
    Result<Vec<Message>, ApiError>)
    ensures
        match admitted(*state, *authorization, now) {
            Err(e) => r == Err::<Vec<Message>, ApiError>(e),
            Ok(c) => if !tables(*state).is_member(conversation_id@, c.sub) {
                r == Err::<Vec<Message>, ApiError>(ApiError::Forbidden)
            } else {
                r is Ok && messages_show(
                    r->Ok_0@,
                    at_most(
                        history(tables(*state), conversation_id@, opt_text(query.before)),
                        requested_page(query.limit) as int,
                    ),
                    tables(*state),
                )
            },
        },
{
    let claims = match validate_auth_header(state.jwt_secret.as_str(), authorization, now) {
        Ok(c) => c,
        Err(e) => {
            return Err(e);
        },
    };
    match &state.storage_manager {
        None => Err(ApiError::Unavailable),
        Some(sm) => {
            if !sm.is_conversation_member(conversation_id, claims.sub.as_str()) {
                return Err(ApiError::Forbidden);
            }
            let limit = effective_limit(query.limit);
            let before: Option<&str> = match &query.before {
                Some(b) => Some(b.as_str()),
                None => None,
            };
            Ok(sm.list_messages(conversation_id, limit, before))
        },
    }
}

// ---------------------------------------------------------------------------
// The WebSocket loop
// ---------------------------------------------------------------------------

/// What happened on a WebSocket connection or on the broadcast channel.
#[derive(Debug)]
pub enum WsEvent {
    /// A new message was published.
    Published(BroadcastMessage),
    /// The subscriber fell behind and missed events.
    Lagged,
    /// The broadcast channel is gone.
    ChannelClosed,
    /// The client sent a frame.
    ClientFrame,
    /// The socket failed or was closed.
    SocketClosed,
    /// Writing to the socket failed.
    SendFailed,
}

/// What the WebSocket loop does next.
#[derive(Debug)]
pub enum WsAction {
    /// Write the event to the socket, then go on.
    Send(BroadcastMessage),
    /// Go on.
    Continue,
    /// Leave the loop.
    Close,
}

/// The conversations whose events a connection receives, fixed when the
/// connection is made: those of the user, or none while the node is not
/// configured.
pub fn ws_subscription(state: &ApiState, user_id: &str) -> (ids: Vec<String>)
    ensures
        ids@ == match state.storage_manager {
            Some(sm) => conversation_ids(conversations_of(sm@, user_id@)),
            None => Seq::<String>::empty(),
        },
{
    match &state.storage_manager {
        Some(sm) => sm.conversation_ids_of(user_id),
        None => Vec::new(),
    }
}

/// Whether an event of `conversation` goes to a connection that is
/// subscribed to `subscribed`.
pub open spec fn delivers(subscribed: Seq<String>, conversation: Seq<char>) -> bool {
    string_views(subscribed).contains(conversation)
}

/// One step of the WebSocket loop. A published message goes to the socket
/// exactly when its conversation is among the subscribed ones. A subscriber
/// that fell behind simply goes on; frames from the client are ignored; the
/// loop ends when the socket or the channel is gone.
pub fn handle_ws(subscribed: &Vec<String>, event: WsEvent) -> (action: WsAction)
    ensures
        match event {
            WsEvent::Published(m) => if delivers(subscribed@, m.conversation_id@) {
                action == WsAction::Send(m)
            } else {
                action is Continue
            },
            WsEvent::Lagged => action is Continue,
            WsEvent::ClientFrame => action is Continue,
            WsEvent::ChannelClosed => action is Close,
            WsEvent::SocketClosed => action is Close,
            WsEvent::SendFailed => action is Close,
        },
{
    match event {
        WsEvent::Published(m) => {
            if crate::storage_manager::text_listed(subscribed, m.conversation_id.as_str()) {
                WsAction::Send(m)
            } else {
                WsAction::Continue
            }
        },
        WsEvent::Lagged => WsAction::Continue,
        WsEvent::ClientFrame => WsAction::Continue,
        WsEvent::ChannelClosed => WsAction::Close,
        WsEvent::SocketClosed => WsAction::Close,
        WsEvent::SendFailed => WsAction::Close,
    }
}

// ---------------------------------------------------------------------------
// Probes
// ---------------------------------------------------------------------------

/// The node's identity and capacity.
#[derive(Debug)]
pub struct HubInfo {
    pub node_id: String,
    pub node_name: String,
    pub node_type: String,
    pub storage_quota_milli_gb: u64,
}

/// The node's state.
#[derive(Debug)]
pub struct HubStatus {
    pub node_name: String,
    pub node_type: String,
    pub uptime_seconds: u64,
    pub used_bytes: u64,
    pub quota_milli_gb: u64,
    pub file_count: u64,
    pub online: bool,
}

/// The node's identity and capacity; unavailable until the node is
/// configured.
pub fn hub_info(state: &ApiState) -> (r: Result<HubInfo, ApiError>)
    ensures
        match state.storage_manager {
            Some(sm) => match sm.node() {
                Some(c) => {
                    &&& r is Ok
                    &&& r->Ok_0.node_id == c.node_id
                    &&& r->Ok_0.node_name == c.node_name
                    &&& r->Ok_0.node_type == c.node_type
                    &&& r->Ok_0.storage_quota_milli_gb == c.disk_quota_milli_gb
                },
                None => r == Err::<HubInfo, ApiError>(ApiError::Unavailable),
            },
            None => r == Err::<HubInfo, ApiError>(ApiError::Unavailable),
        },
{
    match &state.storage_manager {
        None => Err(ApiError::Unavailable),
        Some(sm) => match sm.get_node_config() {
            None => Err(ApiError::Unavailable),
            Some(c) => Ok(
                HubInfo {
                    node_id: c.node_id,
                    node_name: c.node_name,
                    node_type: c.node_type,
                    storage_quota_milli_gb: c.disk_quota_milli_gb,
                },
            ),
        },
    }
}

/// The node's state, with what the caller measured: the bytes and files on
/// disk and the time since the start. Unavailable until the node is
/// configured.
pub fn hub_status(state: &ApiState, used_bytes: u64, file_count: u64, uptime_seconds: u64) -> (r: Result<
    HubStatus,
    ApiError,
>)
    ensures
        match state.storage_manager {
            Some(sm) => match sm.node() {
                Some(c) => {
                    &&& r is Ok
                    &&& r->Ok_0.node_name == c.node_name
                    &&& r->Ok_0.node_type == c.node_type
                    &&& r->Ok_0.uptime_seconds == uptime_seconds
                    &&& r->Ok_0.used_bytes == used_bytes
                    &&& r->Ok_0.quota_milli_gb == c.disk_quota_milli_gb
                    &&& r->Ok_0.file_count == file_count
                    &&& r->Ok_0.online
                },
                None => r == Err::<HubStatus, ApiError>(ApiError::Unavailable),
            },
            None => r == Err::<HubStatus, ApiError>(ApiError::Unavailable),
        },
{
    match &state.storage_manager {
        None => Err(ApiError::Unavailable),
        Some(sm) => match sm.get_node_config() {
            None => Err(ApiError::Unavailable),
            Some(c) => Ok(
                HubStatus {
                    node_name: c.node_name,
                    node_type: c.node_type,
                    uptime_seconds,
                    used_bytes,
                    quota_milli_gb: c.disk_quota_milli_gb,
                    file_count,
                    online: true,
                },
            ),
        },
    }
}

} // verus!
