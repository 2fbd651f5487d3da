use vstd::prelude::*;

use crate::broker::application::StartUpError;

verus! {

/// `redis::Client`, carried through unread.
#[verifier::external_type_specification]
#[verifier::external_body]
pub struct ExRedisClient(redis::Client);

/// `redis::RedisError`, carried through unread.
#[verifier::external_type_specification]
#[verifier::external_body]
pub struct ExRedisError(redis::RedisError);

/// What `redis::Client::open` returns for the URL `connection_string`: a
/// client for the store it names, or the error that the URL is not one. It
/// reads the text alone and opens no connection.
pub uninterp spec fn redis_open_result(connection_string: Seq<char>) -> Result<redis::Client, redis::RedisError>;

/// Whether `redis::Client::open` accepts `connection_string` as the URL of a store.
pub open spec fn redis_url_accepted(connection_string: Seq<char>) -> bool {
    redis_open_result(connection_string) is Ok
}

/// `redis::Client::open` on a URL.
#[verifier::external_body]
fn redis_client_open(connection_string: &str) -> (r: Result<redis::Client, redis::RedisError>)
    ensures
        r == redis_open_result(connection_string@),
{
    redis::Client::open(connection_string)
}

/// A client for the store at `connection_string`: the one `redis::Client::open`
/// makes, or its error, carried as `FailToGetRedisClient`.
pub fn open_redis(connection_string: &str) -> (r: Result<redis::Client, StartUpError>)
    ensures
        r == (match redis_open_result(connection_string@) {
            Ok(client) => Ok(client),
            Err(e) => Err(StartUpError::FailToGetRedisClient(e)),
        }),
        r is Ok <==> redis_url_accepted(connection_string@),
{
    match redis_client_open(connection_string) {
        Ok(client) => Ok(client),
        Err(e) => Err(StartUpError::FailToGetRedisClient(e)),
    }
}

} // verus!
