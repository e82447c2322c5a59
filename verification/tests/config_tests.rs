use mdex_dl::config::{
    parse_log_filter, Client, Concurrency, Config, ConfigError, ImageQuality, Images, LogFilter,
    Logging, SaveFormat,
};
use mdex_dl::lang::Lang;

fn config(max_retries: u32, image_permits: usize, chapter_permits: usize) -> Config {
    Config {
        client: Client {
            base_url: "https://api.example".to_string(),
            user_agent: "test-agent".to_string(),
            max_retries,
            language: Lang { code: "en".to_string() },
        },
        concurrency: Concurrency { image_permits, chapter_permits },
        images: Images { quality: ImageQuality::Lossless, save_format: SaveFormat::Raw },
        logging: Logging { enabled: false, filter: LogFilter::Info },
    }
}

#[test]
fn validate_accepts_nonzero_options() {
    assert_eq!(config(3, 25, 2).validate(), Ok(()));
}

#[test]
fn validate_names_the_zero_option() {
    assert_eq!(config(0, 25, 2).validate(), Err(ConfigError::ZeroMaxRetries));
    assert_eq!(config(3, 0, 2).validate(), Err(ConfigError::ZeroImagePermits));
    assert_eq!(config(3, 25, 0).validate(), Err(ConfigError::ZeroChapterPermits));
}

#[test]
fn log_filter_accepts_upper_case_levels() {
    assert_eq!(parse_log_filter("TRACE"), Some(LogFilter::Trace));
    assert_eq!(parse_log_filter("DEBUG"), Some(LogFilter::Debug));
    assert_eq!(parse_log_filter("INFO"), Some(LogFilter::Info));
    assert_eq!(parse_log_filter("WARN"), Some(LogFilter::Warn));
    assert_eq!(parse_log_filter("ERROR"), Some(LogFilter::Error));
    assert_eq!(parse_log_filter("debug"), None);
    assert_eq!(parse_log_filter("loud"), None);
}
