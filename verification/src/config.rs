//! The daemon's configuration and its checks.

use vstd::prelude::*;
use vstd::string::StringExecFns;
use crate::patterns::{
    all_parse, glob_new, glob_parses, is_first_unparsed, texts, CompiledPatterns,
};

verus! {

/// The whole configuration.
#[derive(Debug, Clone, PartialEq, Eq)]
pub struct DaemonConfig {
    pub server: ServerConfig,
    pub watcher: WatcherConfig,
    pub performance: PerformanceConfig,
    pub logging: LoggingConfig,
    pub patterns: PatternConfig,
}

/// Where the daemon listens.
#[derive(Debug, Clone, PartialEq, Eq)]
pub struct ServerConfig {
    pub bind_address: String,
    pub port: u16,
    pub max_connections: usize,
    pub request_timeout_ms: u64,
    pub enable_metrics: bool,
    pub metrics_port: u16,
}

/// What is watched and how much is kept.
#[derive(Debug, Clone, PartialEq, Eq)]
pub struct WatcherConfig {
    pub watch_paths: Vec<WatchPath>,
    pub event_buffer_size: usize,
    pub hash_cache_size: usize,
    pub hash_cache_ttl_secs: u64,
    pub hash_block_size: u32,
}

/// One directory to watch.
#[derive(Debug, Clone, PartialEq, Eq)]
pub struct WatchPath {
    pub path: String,
    pub recursive: bool,
    pub enabled: bool,
}

/// Tuning.
#[derive(Debug, Clone, Copy, PartialEq, Eq, Structural)]
pub struct PerformanceConfig {
    /// Worker threads; 0 lets the runtime choose.
    pub worker_threads: usize,
    pub enable_simd: bool,
    pub event_batch_size: usize,
    pub poll_interval_us: u64,
    pub enable_zero_copy: bool,
}

/// Logging.
#[derive(Debug, Clone, PartialEq, Eq)]
pub struct LoggingConfig {
    pub level: String,
    pub format: String,
    pub file: Option<String>,
    pub structured: bool,
}

/// Which files count.
#[derive(Debug, Clone, PartialEq, Eq)]
pub struct PatternConfig {
    pub include_patterns: Vec<String>,
    pub exclude: Vec<String>,
    pub max_file_size: u64,
    pub ignore_binary: bool,
}

/// What is wrong with a configuration.
#[derive(Debug, Clone, Copy, PartialEq, Eq, Structural)]
pub enum ConfigError {
    /// The server port is 0.
    InvalidPort,
    /// No connection is allowed.
    NoConnections,
    /// The event buffer has no room.
    NoEventBuffer,
    /// The inclusion text at this place is no glob pattern.
    InvalidIncludePattern(usize),
    /// The exclusion text at this place is no glob pattern.
    InvalidExcludePattern(usize),
    /// The patterns do not compile into a set.
    PatternSetFailed,
    /// No configuration file was loaded.
    NoConfigFile,
}

impl Default for ServerConfig {
    /// `127.0.0.1:9090`, 1000 connections, 30 s, metrics on port 9091.
    fn default() -> (config: ServerConfig)
        ensures
            config.bind_address@ == "127.0.0.1"@,
            config.port == 9090,
            config.max_connections == 1000,
            config.request_timeout_ms == 30000,
            config.enable_metrics,
            config.metrics_port == 9091,
    {
        ServerConfig {
            bind_address: String::from_str("127.0.0.1"),
            port: 9090,
            max_connections: 1000,
            request_timeout_ms: 30000,
            enable_metrics: true,
            metrics_port: 9091,
        }
    }
}

impl Default for WatcherConfig {
    /// No directory, 65536 events, 100000 cached hashes for an hour, blocks
    /// of 4096 bytes.
    fn default() -> (config: WatcherConfig)
        ensures
            config.watch_paths@.len() == 0,
            config.event_buffer_size == 65536,
            config.hash_cache_size == 100000,
            config.hash_cache_ttl_secs == 3600,
            config.hash_block_size == 4096,
    {
        WatcherConfig {
            watch_paths: Vec::new(),
            event_buffer_size: 65536,
            hash_cache_size: 100000,
            hash_cache_ttl_secs: 3600,
            hash_block_size: 4096,
        }
    }
}

impl Default for PerformanceConfig {
    /// Threads as the runtime chooses, vector instructions, batches of 100,
    /// polls every millisecond, zero copy.
    fn default() -> (config: PerformanceConfig)
        ensures
            config == (PerformanceConfig {
                worker_threads: 0,
                enable_simd: true,
                event_batch_size: 100,
                poll_interval_us: 1000,
                enable_zero_copy: true,
            }),
    {
        PerformanceConfig {
            worker_threads: 0,
            enable_simd: true,
            event_batch_size: 100,
            poll_interval_us: 1000,
            enable_zero_copy: true,
        }
    }
}

impl Default for LoggingConfig {
    /// Level `info`, format `pretty`, no file, unstructured.
    fn default() -> (config: LoggingConfig)
        ensures
            config.level@ == "info"@,
            config.format@ == "pretty"@,
            config.file is None,
            !config.structured,
    {
        LoggingConfig {
            level: String::from_str("info"),
            format: String::from_str("pretty"),
            file: None,
            structured: false,
        }
    }
}

impl Default for PatternConfig {
    /// Inclusion `**/*`; exclusion `**/node_modules/**`, `**/.git/**`,
    /// `**/target/**`, `**/*.log` and `**/.*`; files up to 100 MiB; binary
    /// files ignored.
    fn default() -> (config: PatternConfig)
        ensures
            config.include_patterns@.len() == 1,
            config.include_patterns@[0]@ == "**/*"@,
            config.exclude@.len() == 5,
            config.exclude@[0]@ == "**/node_modules/**"@,
            config.exclude@[1]@ == "**/.git/**"@,
            config.exclude@[2]@ == "**/target/**"@,
            config.exclude@[3]@ == "**/*.log"@,
            config.exclude@[4]@ == "**/.*"@,
            config.max_file_size == 104857600,
            config.ignore_binary,
    {
        let mut include_patterns: Vec<String> = Vec::new();
        include_patterns.push(String::from_str("**/*"));
        let mut exclude: Vec<String> = Vec::new();
        exclude.push(String::from_str("**/node_modules/**"));
        exclude.push(String::from_str("**/.git/**"));
        exclude.push(String::from_str("**/target/**"));
        exclude.push(String::from_str("**/*.log"));
        exclude.push(String::from_str("**/.*"));
        PatternConfig { include_patterns, exclude, max_file_size: 104857600, ignore_binary: true }
    }
}

impl Default for DaemonConfig {
    /// The defaults of all parts.
    fn default() -> (config: DaemonConfig)
        ensures
            config.server.port == 9090,
            config.server.max_connections == 1000,
            config.watcher.event_buffer_size == 65536,
            texts(config.patterns.include_patterns@) == default_wanted(),
            texts(config.patterns.exclude@) == default_unwanted(),
    {
        let config = DaemonConfig::make_default();
        proof {
            assert(texts(config.patterns.include_patterns@) =~= default_wanted());
            assert(texts(config.patterns.exclude@) =~= default_unwanted());
        }
        config
    }
}

impl DaemonConfig {
    fn make_default() -> (config: DaemonConfig)
        ensures
            config.server.port == 9090,
            config.server.max_connections == 1000,
            config.watcher.event_buffer_size == 65536,
            config.patterns.include_patterns@.len() == 1,
            config.patterns.include_patterns@[0]@ == "**/*"@,
            config.patterns.exclude@.len() == 5,
            config.patterns.exclude@[0]@ == "**/node_modules/**"@,
            config.patterns.exclude@[1]@ == "**/.git/**"@,
            config.patterns.exclude@[2]@ == "**/target/**"@,
            config.patterns.exclude@[3]@ == "**/*.log"@,
            config.patterns.exclude@[4]@ == "**/.*"@,
    {
        DaemonConfig {
            server: ServerConfig::default(),
            watcher: WatcherConfig::default(),
            performance: PerformanceConfig::default(),
            logging: LoggingConfig::default(),
            patterns: PatternConfig::default(),
        }
    }
}

/// The texts of the default inclusion patterns.
pub open spec fn default_wanted() -> Seq<Seq<char>> {
    seq!["**/*"@]
}

/// The texts of the default exclusion patterns.
pub open spec fn default_unwanted() -> Seq<Seq<char>> {
    seq!["**/node_modules/**"@, "**/.git/**"@, "**/target/**"@, "**/*.log"@, "**/.*"@]
}

/// The first text among some that is no glob pattern, if there is one.
fn first_invalid(patterns: &Vec<String>) -> (place: Option<usize>)
    ensures
        place is None <==> all_parse(texts(patterns@)),
        place matches Some(i) ==> is_first_unparsed(texts(patterns@), i as int),
{
    let mut i: usize = 0;
    while i < patterns.len()
        invariant
            i <= patterns@.len(),
            forall|k: int| 0 <= k < i ==> glob_parses(#[trigger] texts(patterns@)[k]),
        decreases patterns@.len() - i,
    {
        if glob_new(patterns[i].as_str()).is_none() {
            proof {
                assert(!glob_parses(texts(patterns@)[i as int]));
            }
            return Some(i);
        }
        i = i + 1;
    }
    None
}

/// What is wrong with a configuration, if anything: the first of a server
/// port of 0, no connections allowed, an event buffer without room, an
/// inclusion text that is no pattern, an exclusion text that is no pattern.
pub open spec fn fault(config: DaemonConfig) -> Option<ConfigError> {
    if config.server.port == 0 {
        Some(ConfigError::InvalidPort)
    } else if config.server.max_connections == 0 {
        Some(ConfigError::NoConnections)
    } else if config.watcher.event_buffer_size == 0 {
        Some(ConfigError::NoEventBuffer)
    } else if !all_parse(texts(config.patterns.include_patterns@)) {
        Some(
            ConfigError::InvalidIncludePattern(
                choose|i: usize| is_first_unparsed(texts(config.patterns.include_patterns@), i as int),
            ),
        )
    } else if !all_parse(texts(config.patterns.exclude@)) {
        Some(
            ConfigError::InvalidExcludePattern(
                choose|i: usize| is_first_unparsed(texts(config.patterns.exclude@), i as int),
            ),
        )
    } else {
        None
    }
}

/// There is one first text that is no pattern.
pub proof fn lemma_first_unparsed_unique(patterns: Seq<Seq<char>>, i: int, j: int)
    requires
        is_first_unparsed(patterns, i),
        is_first_unparsed(patterns, j),
    ensures
        i == j,
{
    if i < j {
        assert(glob_parses(patterns[i]));
    } else if j < i {
        assert(glob_parses(patterns[j]));
    }
}

/// The configuration in use, with its compiled patterns and the file it
/// came from.
pub struct ConfigManager {
    config: DaemonConfig,
    patterns: CompiledPatterns,
    config_path: Option<String>,
}

impl ConfigManager {
    /// The configuration in use.
    pub closed spec fn config(&self) -> DaemonConfig {
        self.config
    }

    /// The compiled patterns in use.
    pub closed spec fn patterns(&self) -> CompiledPatterns {
        self.patterns
    }

    /// The file the configuration came from.
    pub closed spec fn config_path(&self) -> Option<String> {
        self.config_path
    }

    /// The patterns in use are those of the configuration in use.
    pub open spec fn wf(&self) -> bool {
        &&& self.patterns().include_globs() == texts(self.config().patterns.include_patterns@)
        &&& self.patterns().exclude_globs() == texts(self.config().patterns.exclude@)
    }

    /// A manager with the default configuration, if its patterns compile.
    pub fn new() -> (manager: Result<ConfigManager, ConfigError>)
        ensures
            manager is Ok <==> CompiledPatterns::texts_compilable(
                default_wanted(),
                default_unwanted(),
            ),
            manager matches Ok(m) ==> m.wf() && m.config_path() is None && m.config().server.port
                == 9090 && texts(m.config().patterns.include_patterns@) == default_wanted()
                && texts(m.config().patterns.exclude@) == default_unwanted(),
    {
        let config = DaemonConfig::default();
        let patterns = match CompiledPatterns::new(&config.patterns) {
            Ok(p) => p,
            Err(e) => {
                return Err(e);
            },
        };
        Ok(ConfigManager { config, patterns, config_path: None })
    }

    /// Takes over a configuration that was read from the file at `path`.
    /// Its patterns are compiled first; if that fails, nothing changes.
    pub fn load(&mut self, config: DaemonConfig, path: String) -> (loaded: Result<(), ConfigError>)
        requires
            old(self).wf(),
        ensures
            final(self).wf(),
            loaded is Ok <==> CompiledPatterns::compilable(config.patterns),
            loaded is Ok ==> final(self).config() == config && final(self).config_path() == Some(
                path,
            ),
            loaded is Err ==> final(self).config() == old(self).config() && final(self).config_path() == old(self).config_path() && final(self).patterns() == old(self).patterns(),
    {
        let patterns = match CompiledPatterns::new(&config.patterns) {
            Ok(p) => p,
            Err(e) => {
                return Err(e);
            },
        };
        self.config = config;
        self.patterns = patterns;
        self.config_path = Some(path);
        Ok(())
    }

    /// The configuration in use.
    pub fn get_config(&self) -> (config: &DaemonConfig)
        ensures
            *config == self.config(),
    {
        &self.config
    }

    /// The compiled patterns in use.
    pub fn get_patterns(&self) -> (patterns: &CompiledPatterns)
        ensures
            *patterns == self.patterns(),
    {
        &self.patterns
    }

    /// Whether hot reloading can start: a configuration file was loaded.
    pub fn start_hot_reload(&self) -> (path: Result<&String, ConfigError>)
        ensures
            path is Ok <==> self.config_path() is Some,
            path matches Ok(p) ==> Some(*p) == self.config_path(),
            path matches Err(e) ==> e == ConfigError::NoConfigFile,
    {
        match &self.config_path {
            Some(p) => Ok(p),
            None => Err(ConfigError::NoConfigFile),
        }
    }

    /// Checks a configuration; the error is the first fault, see [`fault`].
    pub fn validate(config: &DaemonConfig) -> (checked: Result<(), ConfigError>)
        ensures
            checked is Ok <==> fault(*config) is None,
            checked matches Err(e) ==> fault(*config) == Some(e),
    {
        if config.server.port == 0 {
            return Err(ConfigError::InvalidPort);
        }
        if config.server.max_connections == 0 {
            return Err(ConfigError::NoConnections);
        }
        if config.watcher.event_buffer_size == 0 {
            return Err(ConfigError::NoEventBuffer);
        }
        if let Some(i) = first_invalid(&config.patterns.include_patterns) {
            proof {
                let j = choose|j: usize| is_first_unparsed(texts(config.patterns.include_patterns@), j as int);
                lemma_first_unparsed_unique(texts(config.patterns.include_patterns@), i as int, j as int);
            }
            return Err(ConfigError::InvalidIncludePattern(i));
        }
        if let Some(i) = first_invalid(&config.patterns.exclude) {
            proof {
                let j = choose|j: usize| is_first_unparsed(texts(config.patterns.exclude@), j as int);
                lemma_first_unparsed_unique(texts(config.patterns.exclude@), i as int, j as int);
            }
            return Err(ConfigError::InvalidExcludePattern(i));
        }
        Ok(())
    }
}

} // verus!
