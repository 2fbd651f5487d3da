use vstd::prelude::*;
use crate::app_ops::utils::http_settings::HttpSettings;

verus! {

/// Why the server could not start.
#[derive(Debug)]
pub enum StartUpError {
    FailToStartTcpListener(std::io::Error),
    FailToStartHttpServer(std::io::Error),
}

/// The server's HTTP application.
pub struct Application {
    settings: HttpSettings,
}

impl Application {
    pub closed spec fn spec_settings(&self) -> HttpSettings {
        self.settings
    }

    pub fn new(settings: HttpSettings) -> (r: Application)
        ensures
            r.spec_settings() == settings,
    {
        Application { settings }
    }

    pub fn settings(&self) -> (r: &HttpSettings)
        ensures
            *r == self.spec_settings(),
    {
        &self.settings
    }
}

} // verus!
