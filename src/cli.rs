//! The command-line options of the fetching tool, and the configuration
//! they give.
use vstd::prelude::*;
use vstd::string::StringExecFns;
use crate::classify::Features;
use crate::resolve::ResolveConfig;

verus! {

/// The options of the fetching tool.
pub struct Args {
    pub flag_verbose: usize,
    pub flag_quiet: bool,
    pub flag_debug: bool,
    pub arg_url: String,
    pub flag_user_agent: Option<String>,
    pub flag_accept_lang: Option<String>,
    pub flag_metadata: bool,
    pub flag_mime: bool,
    /// Not used by the tool.
    pub flag_db: Option<String>,
    /// Not used by the tool.
    pub flag_conf: Option<String>,
}

impl Args {
    /// The resolution configuration the options ask for: the language given
    /// or `"en"`, the two fallback features as flagged, and no failure
    /// records.
    pub fn config(&self) -> (r: ResolveConfig)
        ensures
            r.accept_lang@ == match self.flag_accept_lang {
                Some(l) => l@,
                None => "en"@,
            },
            r.features.report_metadata == self.flag_metadata,
            r.features.report_mime == self.flag_mime,
            !r.history,
    {
        let accept_lang = match &self.flag_accept_lang {
            Some(l) => l.clone(),
            None => String::from_str("en"),
        };
        ResolveConfig {
            accept_lang,
            features: Features { report_metadata: self.flag_metadata, report_mime: self.flag_mime },
            history: false,
        }
    }
}

} // verus!
