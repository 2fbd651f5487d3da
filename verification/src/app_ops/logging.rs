use vstd::prelude::*;
use std::marker::PhantomData;
use std::rc::Rc;

verus! {

/// How a service logs: the level filter and the request header that carries
/// the correlation id.
#[derive(Clone, Debug)]
pub struct LogSettings {
    pub level: String,
    pub correlation_id_http_header: String,
}

/// What every log line of a service carries besides the message.
pub trait CommonLogAttributes {
    fn get_commit_id(&self) -> String;

    fn get_correlation_header_name(&self) -> String;
}

/// Builds the root span of each HTTP request of a service whose settings are `T`.
pub struct HttpAppRootSpanBuilder<T> {
    phantom: PhantomData<T>,
}

/// The correlation id a request span carries: the header's value, or `none`
/// when the request has no such header.
pub open spec fn span_correlation_id(header_value: Option<Seq<char>>) -> Seq<char> {
    match header_value {
        Some(v) => v,
        None => seq!['n', 'o', 'n', 'e'],
    }
}

impl<T> HttpAppRootSpanBuilder<T> {
    pub fn new() -> Self {
        HttpAppRootSpanBuilder { phantom: PhantomData }
    }

    /// The correlation id recorded on the root span of a request whose
    /// correlation header holds `header_value`.
    pub fn correlation_id(header_value: Option<&str>) -> (r: String)
        ensures
            r@ == span_correlation_id(
                match header_value {
                    Some(v) => Some(v@),
                    None => None,
                },
            ),
    {
        match header_value {
            Some(v) => v.to_owned(),
            None => {
                proof {
                    reveal_strlit("none");
                }
                let r = "none".to_owned();
                assert(r@ =~= seq!['n', 'o', 'n', 'e']);
                r
            },
        }
    }
}

/// Asks for the logging of the service `app_name`.
pub struct CreateLoggingRequest {
    pub app_name: String,
    pub settings: LogSettings,
}

/// The logging set-up of a service.
pub struct LoggingBuilder {
    settings: Rc<LogSettings>,
    app_name: String,
}

impl LoggingBuilder {
    pub closed spec fn spec_settings(&self) -> LogSettings {
        *self.settings
    }

    pub closed spec fn spec_app_name(&self) -> Seq<char> {
        self.app_name@
    }

    pub fn new(request: CreateLoggingRequest) -> (r: LoggingBuilder)
        ensures
            r.spec_settings() == request.settings,
            r.spec_app_name() == request.app_name@,
    {
        LoggingBuilder { settings: Rc::new(request.settings), app_name: request.app_name }
    }

    pub fn settings(&self) -> (r: &LogSettings)
        ensures
            *r == self.spec_settings(),
    {
        &self.settings
    }

    pub fn app_name(&self) -> (r: &str)
        ensures
            r@ == self.spec_app_name(),
    {
        self.app_name.as_str()
    }
}

} // verus!
