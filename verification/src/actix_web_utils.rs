use vstd::prelude::*;
use actix_cors::Cors;

verus! {

/// How long, in seconds, browsers may cache the answer to a preflight request.
pub const CORS_MAX_AGE: usize = 3600;

/// Whether `c` may stand in an HTTP header value: a tab, or any character
/// from the space on except DEL.
pub open spec fn is_header_value_char(c: char) -> bool {
    c == '\t' || (c as int >= 32 && c as int != 127)
}

/// Whether every character of `s` may stand in an HTTP header value.
pub open spec fn is_header_value_text(s: Seq<char>) -> bool {
    forall|i: int| 0 <= i < s.len() ==> is_header_value_char(#[trigger] s[i])
}

/// Whether every character of `s` may stand in an HTTP header value.
pub fn header_value_text(s: &str) -> (r: bool)
    ensures
        r == is_header_value_text(s@),
{
    let n = s.unicode_len();
    let mut i: usize = 0;
    while i < n
        invariant
            n == s@.len(),
            i <= n,
            forall|j: int| 0 <= j < i ==> is_header_value_char(#[trigger] s@[j]),
        decreases n - i,
    {
        let c = s.get_char(i);
        if !(c == '\t' || (c as u32 >= 32 && c as u32 != 127)) {
            assert(!is_header_value_char(s@[i as int]));
            return false;
        }
        i = i + 1;
    }
    true
}

/// The origins a CORS policy lets through.
pub enum AllowedOrigins {
    Any,
    Only(String),
}

/// A CORS policy, as plain values.
pub struct CorsPolicy {
    pub any_method: bool,
    pub any_header: bool,
    pub max_age: usize,
    pub origins: AllowedOrigins,
}

/// The policy for `allowed_origin`: every method and header, preflight
/// answers cached for an hour, and every origin when `allowed_origin` is `*`,
/// that one origin otherwise.
pub fn cors_policy(allowed_origin: &str) -> (r: CorsPolicy)
    ensures
        r.any_method,
        r.any_header,
        r.max_age == CORS_MAX_AGE,
        allowed_origin@ == seq!['*'] ==> r.origins is Any,
        allowed_origin@ != seq!['*'] ==> (r.origins matches AllowedOrigins::Only(o) && o@ == allowed_origin@),
{
    let is_wildcard = allowed_origin.unicode_len() == 1 && allowed_origin.get_char(0) == '*';
    assert(is_wildcard <==> allowed_origin@ =~= seq!['*']);
    let origins = if is_wildcard {
        AllowedOrigins::Any
    } else {
        AllowedOrigins::Only(allowed_origin.to_owned())
    };
    CorsPolicy { any_method: true, any_header: true, max_age: CORS_MAX_AGE, origins }
}

/// `actix_cors::Cors`, carried through unread.
#[verifier::external_type_specification]
#[verifier::external_body]
pub struct ExCors(Cors);

/// Whether the builder `cors` has recorded an error: such a builder ignores
/// every further change, and the middleware reports the error when it starts.
pub uninterp spec fn cors_failed(cors: Cors) -> bool;

/// Whether the methods `cors` allows are the full set that
/// `Cors::allow_any_method` installs.
pub uninterp spec fn cors_all_methods(cors: Cors) -> bool;

/// Whether `cors` allows any request header.
pub uninterp spec fn cors_any_header(cors: Cors) -> bool;

/// How long, in seconds, `cors` lets browsers cache preflight answers.
pub uninterp spec fn cors_max_age_of(cors: Cors) -> Option<usize>;

/// Whether `cors` allows any origin.
pub uninterp spec fn cors_any_origin(cors: Cors) -> bool;

/// The origins `cors` lists (none while it allows any origin).
pub uninterp spec fn cors_origins(cors: Cors) -> Set<Seq<char>>;

/// Whether `Cors::allowed_origin` lists `origin` rather than recording an
/// error: the text must read as a URI and must not be `*`. This depends on the
/// text alone.
pub uninterp spec fn cors_origin_accepted(origin: Seq<char>) -> bool;

/// What a CORS builder holds, as plain values.
pub struct CorsSettings {
    pub failed: bool,
    pub all_methods: bool,
    pub any_header: bool,
    pub max_age: Option<usize>,
    pub any_origin: bool,
    pub origins: Set<Seq<char>>,
}

pub open spec fn cors_settings(cors: Cors) -> CorsSettings {
    CorsSettings {
        failed: cors_failed(cors),
        all_methods: cors_all_methods(cors),
        any_header: cors_any_header(cors),
        max_age: cors_max_age_of(cors),
        any_origin: cors_any_origin(cors),
        origins: cors_origins(cors),
    }
}

// A `Cors` reaches the wrappers below only from `cors_default`, through the
// others and by value, so no middleware shares its settings while it is
// being built: each builder method then applies its change unless an error
// was recorded before.

/// `Cors::default()`: no error, no method, header or origin allowed, no
/// preflight caching.
#[verifier::external_body]
fn cors_default() -> (r: Cors)
    ensures
        !cors_failed(r),
        !cors_all_methods(r),
        !cors_any_header(r),
        cors_max_age_of(r) is None,
        !cors_any_origin(r),
        cors_origins(r) == Set::<Seq<char>>::empty(),
{
    Cors::default()
}

/// `Cors::allow_any_method`: allows every method, unless an error was recorded.
#[verifier::external_body]
fn cors_allow_any_method(cors: Cors) -> (r: Cors)
    ensures
        cors_settings(r) == (if cors_failed(cors) {
            cors_settings(cors)
        } else {
            CorsSettings { all_methods: true, ..cors_settings(cors) }
        }),
{
    cors.allow_any_method()
}

/// `Cors::allow_any_header`: allows every request header, unless an error
/// was recorded.
#[verifier::external_body]
fn cors_allow_any_header(cors: Cors) -> (r: Cors)
    ensures
        cors_settings(r) == (if cors_failed(cors) {
            cors_settings(cors)
        } else {
            CorsSettings { any_header: true, ..cors_settings(cors) }
        }),
{
    cors.allow_any_header()
}

/// `Cors::max_age`, with a number of seconds, unless an error was recorded.
#[verifier::external_body]
fn cors_max_age(cors: Cors, seconds: usize) -> (r: Cors)
    ensures
        cors_settings(r) == (if cors_failed(cors) {
            cors_settings(cors)
        } else {
            CorsSettings { max_age: Some(seconds), ..cors_settings(cors) }
        }),
{
    cors.max_age(seconds)
}

/// `Cors::allow_any_origin`: allows every origin (the listed ones are
/// dropped), unless an error was recorded.
#[verifier::external_body]
fn cors_allow_any_origin(cors: Cors) -> (r: Cors)
    ensures
        cors_settings(r) == (if cors_failed(cors) {
            cors_settings(cors)
        } else {
            CorsSettings { any_origin: true, origins: Set::<Seq<char>>::empty(), ..cors_settings(cors) }
        }),
{
    cors.allow_any_origin()
}

/// `Cors::allowed_origin`: lists one origin (no longer allowing any origin),
/// or records an error for a text it does not accept; nothing changes once
/// an error was recorded. The origin is asked to be valid header text: an
/// accepted origin is turned into a header value by `unwrap`, which panics
/// on other text.
#[verifier::external_body]
fn cors_allowed_origin(cors: Cors, origin: &str) -> (r: Cors)
    requires
        is_header_value_text(origin@),
    ensures
        cors_settings(r) == (if cors_failed(cors) {
            cors_settings(cors)
        } else if cors_origin_accepted(origin@) {
            CorsSettings { any_origin: false, origins: cors_origins(cors).insert(origin@), ..cors_settings(cors) }
        } else {
            CorsSettings { failed: true, ..cors_settings(cors) }
        }),
{
    cors.allowed_origin(origin)
}

impl CorsPolicy {
    /// The middleware that enforces this policy.
    pub fn to_cors(&self) -> (r: Cors)
        requires
            self.origins matches AllowedOrigins::Only(o) ==> is_header_value_text(o@),
        ensures
            cors_all_methods(r) == self.any_method,
            cors_any_header(r) == self.any_header,
            cors_max_age_of(r) == Some(self.max_age),
            self.origins is Any ==> !cors_failed(r) && cors_any_origin(r),
            self.origins matches AllowedOrigins::Only(o) ==> (if cors_origin_accepted(o@) {
                !cors_failed(r) && !cors_any_origin(r) && cors_origins(r) == set![o@]
            } else {
                cors_failed(r)
            }),
    {
        let mut cors = cors_default();
        if self.any_method {
            cors = cors_allow_any_method(cors);
        }
        if self.any_header {
            cors = cors_allow_any_header(cors);
        }
        cors = cors_max_age(cors, self.max_age);
        match &self.origins {
            AllowedOrigins::Any => cors_allow_any_origin(cors),
            AllowedOrigins::Only(origin) => {
                let r = cors_allowed_origin(cors, origin.as_str());
                assert(Set::<Seq<char>>::empty().insert(origin@) =~= set![origin@]);
                r
            },
        }
    }
}

/// The CORS middleware of a service whose allowed origin is `allowed_origin`:
/// every method and header, preflight answers cached for an hour, and every
/// origin when `allowed_origin` is `*`; that one origin otherwise, when the
/// builder accepts it (a middleware that reports an error when it starts
/// otherwise). The origin must be valid header text, as the builder turns an
/// accepted origin into a header value.
pub fn create_cors_policy(allowed_origin: &str) -> (r: Cors)
    requires
        is_header_value_text(allowed_origin@),
    ensures
        cors_all_methods(r),
        cors_any_header(r),
        cors_max_age_of(r) == Some(CORS_MAX_AGE),
        allowed_origin@ == seq!['*'] ==> !cors_failed(r) && cors_any_origin(r),
        allowed_origin@ != seq!['*'] ==> (if cors_origin_accepted(allowed_origin@) {
            !cors_failed(r) && !cors_any_origin(r) && cors_origins(r) == set![allowed_origin@]
        } else {
            cors_failed(r)
        }),
{
    cors_policy(allowed_origin).to_cors()
}

} // verus!
