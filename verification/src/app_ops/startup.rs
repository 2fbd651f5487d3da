use vstd::prelude::*;
use crate::text::{decimal, decimal_string};

verus! {

/// What a service reports when it starts.
pub struct ApplicationStartUpDisplayInfo {
    pub environment_name: String,
    pub is_debug: String,
    pub port: String,
}

/// `true` or `false`.
pub open spec fn bool_text(b: bool) -> Seq<char> {
    if b {
        seq!['t', 'r', 'u', 'e']
    } else {
        seq!['f', 'a', 'l', 's', 'e']
    }
}

impl ApplicationStartUpDisplayInfo {
    pub fn new(environment_name: &str, is_debug: bool, port: u16) -> (r: ApplicationStartUpDisplayInfo)
        ensures
            r.environment_name@ == environment_name@,
            r.is_debug@ == bool_text(is_debug),
            r.port@ == decimal(port as nat),
    {
        proof {
            reveal_strlit("true");
            reveal_strlit("false");
        }
        let is_debug_text = if is_debug {
            "true".to_owned()
        } else {
            "false".to_owned()
        };
        assert(is_debug_text@ =~= bool_text(is_debug));
        ApplicationStartUpDisplayInfo {
            environment_name: environment_name.to_owned(),
            is_debug: is_debug_text,
            port: decimal_string(port as u64),
        }
    }
}

} // verus!
