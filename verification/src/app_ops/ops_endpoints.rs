use vstd::prelude::*;
use time::OffsetDateTime;
use time::error::{ComponentRange, Format, InvalidFormatDescription};
use time::format_description::OwnedFormatItem;

verus! {

/// `year-month-day hour:minute:second`, the format of every time a service reports.
pub const DATE_ISO_FORMAT: &'static str = "[year]-[month]-[day] [hour]:[minute]:[second]";

/// What the ping endpoint answers.
pub const PING_RESPONSE: &'static str = "application running\n";

/// Fallback commit id of a build that was not given one.
pub const LOCAL_COMMIT_ID: &'static str = "local-dev";

/// What the application info endpoint answers.
pub struct GetAppInfoResponse {
    pub app_name: String,
    pub git_commit_id: String,
    pub started: String,
    pub current_time: String,
    pub ip_address: String,
}

/// What a service knows of itself once started.
#[derive(Clone, Debug)]
pub struct RuntimeInfo {
    pub app_name: String,
    pub git_commit_id: String,
    pub started: String,
    pub ip_address: String,
}

/// Settings that can answer the application info endpoint.
pub trait AppInfoSettings {
    fn get_app_info_response(&self) -> GetAppInfoResponse;
}

impl RuntimeInfo {
    /// The runtime info of service `app_name`, built at commit
    /// `last_commit_sha` (`local-dev` when unknown), started at `started` and
    /// reachable at `ip_address`.
    pub fn new(app_name: &str, last_commit_sha: Option<String>, started: String, ip_address: String) -> (r: RuntimeInfo)
        ensures
            r.app_name@ == app_name@,
            r.git_commit_id@ == (match last_commit_sha {
                Some(sha) => sha@,
                None => LOCAL_COMMIT_ID@,
            }),
            r.started == started,
            r.ip_address == ip_address,
    {
        let git_commit_id = match last_commit_sha {
            Some(sha) => sha,
            None => LOCAL_COMMIT_ID.to_owned(),
        };
        RuntimeInfo { app_name: app_name.to_owned(), git_commit_id, started, ip_address }
    }

    /// The application info endpoint's answer at `current_time`.
    pub fn app_info_response(&self, current_time: String) -> (r: GetAppInfoResponse)
        ensures
            r.app_name == self.app_name,
            r.git_commit_id == self.git_commit_id,
            r.started == self.started,
            r.current_time == current_time,
            r.ip_address == self.ip_address,
    {
        GetAppInfoResponse {
            app_name: self.app_name.clone(),
            git_commit_id: self.git_commit_id.clone(),
            started: self.started.clone(),
            current_time,
            ip_address: self.ip_address.clone(),
        }
    }
}

/// `time::OffsetDateTime`, carried through unread.
#[verifier::external_type_specification]
#[verifier::external_body]
pub struct ExOffsetDateTime(OffsetDateTime);

/// `time::format_description::OwnedFormatItem`, carried through unread.
#[verifier::external_type_specification]
#[verifier::external_body]
pub struct ExOwnedFormatItem(OwnedFormatItem);

/// `time::error::InvalidFormatDescription`, carried through unread.
#[verifier::external_type_specification]
#[verifier::external_body]
pub struct ExInvalidFormatDescription(InvalidFormatDescription);

/// `time::error::ComponentRange`, carried through unread.
#[verifier::external_type_specification]
#[verifier::external_body]
pub struct ExComponentRange(ComponentRange);

/// `time::error::Format`, carried through unread.
#[verifier::external_type_specification]
#[verifier::external_body]
pub struct ExFormat(Format);

/// The description that `time::format_description::parse_owned::<1>` reads
/// from `format`, if it accepts it; this depends on the text alone.
pub uninterp spec fn parsed_format_description(format: Seq<char>) -> Option<OwnedFormatItem>;

/// The UTC date and time `OffsetDateTime::from_unix_timestamp_nanos` gives
/// for `unix_timestamp_nanos`, if it is within the dates the `time` crate
/// represents.
pub uninterp spec fn date_time_at(unix_timestamp_nanos: int) -> Option<OffsetDateTime>;

/// The text `OffsetDateTime::format` renders `dt` to as `description` says,
/// if it can; this depends on the date and the description alone.
pub uninterp spec fn rendered_date_time(dt: OffsetDateTime, description: OwnedFormatItem) -> Option<Seq<char>>;

/// `time::format_description::parse_owned::<1>`: reads a format description
/// in the same first-version syntax as `format_description::parse`.
#[verifier::external_body]
fn parse_format_description(format: &str) -> (r: Result<OwnedFormatItem, InvalidFormatDescription>)
    ensures
        r is Ok <==> parsed_format_description(format@) is Some,
        r matches Ok(description) ==> Some(description) == parsed_format_description(format@),
{
    time::format_description::parse_owned::<1>(format)
}

/// `OffsetDateTime::from_unix_timestamp_nanos`: the UTC date and time of a
/// Unix timestamp in nanoseconds.
#[verifier::external_body]
fn offset_date_time_from_nanos(unix_timestamp_nanos: i128) -> (r: Result<OffsetDateTime, ComponentRange>)
    ensures
        r is Ok <==> date_time_at(unix_timestamp_nanos as int) is Some,
        r matches Ok(dt) ==> Some(dt) == date_time_at(unix_timestamp_nanos as int),
{
    OffsetDateTime::from_unix_timestamp_nanos(unix_timestamp_nanos)
}

/// `OffsetDateTime::format`: renders `dt` as `description` says.
#[verifier::external_body]
fn format_offset_date_time(dt: OffsetDateTime, description: &OwnedFormatItem) -> (r: Result<String, Format>)
    ensures
        r is Ok <==> rendered_date_time(dt, *description) is Some,
        r matches Ok(s) ==> Some(s@) == rendered_date_time(dt, *description),
{
    dt.format(description)
}

/// The text of the date and time `unix_timestamp_nanos` rendered as the
/// format description `format` says, if the description is read, the date
/// represented and the rendering possible.
pub open spec fn formatted_date_time(unix_timestamp_nanos: int, format: Seq<char>) -> Option<Seq<char>> {
    match (parsed_format_description(format), date_time_at(unix_timestamp_nanos)) {
        (Some(description), Some(dt)) => rendered_date_time(dt, description),
        _ => None,
    }
}

/// Why a date could not be formatted.
#[derive(Debug)]
pub enum DateFormatError {
    /// The format description is not one that the `time` crate reads.
    InvalidDescription(InvalidFormatDescription),
    /// The timestamp is outside the dates the `time` crate represents.
    OutOfRange(ComponentRange),
    /// The date could not be rendered as described.
    Format(Format),
}

/// The UTC date and time at `unix_timestamp_nanos` (nanoseconds since the
/// Unix epoch) rendered as the format description `format` says.
pub fn format_date_time(unix_timestamp_nanos: i128, format: &str) -> (r: Result<String, DateFormatError>)
    ensures
        (r matches Err(DateFormatError::InvalidDescription(_))) <==> parsed_format_description(format@) is None,
        (r matches Err(DateFormatError::OutOfRange(_))) <==> parsed_format_description(format@) is Some
            && date_time_at(unix_timestamp_nanos as int) is None,
        r is Ok <==> formatted_date_time(unix_timestamp_nanos as int, format@) is Some,
        r matches Ok(s) ==> Some(s@) == formatted_date_time(unix_timestamp_nanos as int, format@),
{
    let description = match parse_format_description(format) {
        Ok(description) => description,
        Err(e) => {
            return Err(DateFormatError::InvalidDescription(e));
        },
    };
    let dt = match offset_date_time_from_nanos(unix_timestamp_nanos) {
        Ok(dt) => dt,
        Err(e) => {
            return Err(DateFormatError::OutOfRange(e));
        },
    };
    match format_offset_date_time(dt, &description) {
        Ok(s) => Ok(s),
        Err(e) => Err(DateFormatError::Format(e)),
    }
}

} // verus!
