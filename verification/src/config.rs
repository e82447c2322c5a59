//! The immutable configuration the components are constructed with,
//! and the validation the loader applies to it. Reading the file and
//! decoding TOML happen in the application; the checked values land
//! here.

use vstd::prelude::*;
use crate::lang::Lang;
use crate::text::str_eq;

verus! {

/// How downloaded chapters are stored on disk.
#[derive(Debug, Clone, Copy, PartialEq, Eq, Structural)]
pub enum SaveFormat {
    Raw,
    ComicBookZip,
}

/// Which of the two page encodings a chapter is downloaded in.
#[derive(Debug, Clone, Copy, PartialEq, Eq, Structural)]
pub enum ImageQuality {
    Lossless,
    Lossy,
}

/// The verbosity cap of the logging sink.
#[derive(Debug, Clone, Copy, PartialEq, Eq, Structural)]
pub enum LogFilter {
    Trace,
    Debug,
    Info,
    Warn,
    Error,
}

/// The level a logging-filter string names.
pub open spec fn spec_log_filter(s: Seq<char>) -> Option<LogFilter> {
    if s == "TRACE"@ {
        Option::Some(LogFilter::Trace)
    } else if s == "DEBUG"@ {
        Option::Some(LogFilter::Debug)
    } else if s == "INFO"@ {
        Option::Some(LogFilter::Info)
    } else if s == "WARN"@ {
        Option::Some(LogFilter::Warn)
    } else if s == "ERROR"@ {
        Option::Some(LogFilter::Error)
    } else {
        Option::None
    }
}

/// Parses a logging-filter string; exactly the five upper-case level
/// names are accepted.
pub fn parse_log_filter(s: &str) -> (r: Option<LogFilter>)
    ensures
        r == spec_log_filter(s@),
{
    if str_eq(s, "TRACE") {
        Option::Some(LogFilter::Trace)
    } else if str_eq(s, "DEBUG") {
        Option::Some(LogFilter::Debug)
    } else if str_eq(s, "INFO") {
        Option::Some(LogFilter::Info)
    } else if str_eq(s, "WARN") {
        Option::Some(LogFilter::Warn)
    } else if str_eq(s, "ERROR") {
        Option::Some(LogFilter::Error)
    } else {
        Option::None
    }
}

/// Settings of the request layer.
#[derive(Debug, Clone)]
pub struct Client {
    /// The base URL every endpoint is resolved against.
    pub base_url: String,
    /// The user agent sent with every request.
    pub user_agent: String,
    /// How many attempts a rate-limited request is given; must be at
    /// least 1.
    pub max_retries: u32,
    /// The preferred language for titles and chapters.
    pub language: Lang,
}

/// The sizes of the two bounded task pools.
#[derive(Debug, Clone, Copy, PartialEq, Eq, Structural)]
pub struct Concurrency {
    /// How many image fetches may be in flight process-wide.
    pub image_permits: usize,
    /// How many chapters may download simultaneously.
    pub chapter_permits: usize,
}

/// Settings of the image download stage.
#[derive(Debug, Clone, Copy, PartialEq, Eq, Structural)]
pub struct Images {
    pub quality: ImageQuality,
    pub save_format: SaveFormat,
}

/// Settings of the logging sink.
#[derive(Debug, Clone, Copy, PartialEq, Eq, Structural)]
pub struct Logging {
    pub enabled: bool,
    pub filter: LogFilter,
}

/// The whole configuration.
#[derive(Debug, Clone)]
pub struct Config {
    pub client: Client,
    pub concurrency: Concurrency,
    pub images: Images,
    pub logging: Logging,
}

/// The option the loader rejected as zero, in the order the options
/// are checked.
#[derive(Debug, Clone, Copy, PartialEq, Eq, Structural)]
pub enum ConfigError {
    ZeroMaxRetries,
    ZeroImagePermits,
    ZeroChapterPermits,
}

impl Config {
    /// The loaded configuration is usable: the retry bound and both
    /// pool sizes are non-zero.
    pub open spec fn wf(self) -> bool {
        self.client.max_retries >= 1 && self.concurrency.image_permits >= 1
            && self.concurrency.chapter_permits >= 1
    }

    /// Validates the options that must be non-zero, naming the first
    /// offender in checking order.
    pub fn validate(&self) -> (r: Result<(), ConfigError>)
        ensures
            r is Ok <==> self.wf(),
            r == Err::<(), ConfigError>(ConfigError::ZeroMaxRetries) <==> self.client.max_retries
                == 0,
            r == Err::<(), ConfigError>(ConfigError::ZeroImagePermits) <==> self.client.max_retries
                >= 1 && self.concurrency.image_permits == 0,
            r == Err::<(), ConfigError>(ConfigError::ZeroChapterPermits)
                <==> self.client.max_retries >= 1 && self.concurrency.image_permits >= 1
                && self.concurrency.chapter_permits == 0,
    {
        if self.client.max_retries == 0 {
            Err(ConfigError::ZeroMaxRetries)
        } else if self.concurrency.image_permits == 0 {
            Err(ConfigError::ZeroImagePermits)
        } else if self.concurrency.chapter_permits == 0 {
            Err(ConfigError::ZeroChapterPermits)
        } else {
            Ok(())
        }
    }
}

} // verus!
