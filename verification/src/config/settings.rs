//! Configuration, as plain values. Reading it from the environment is the
//! caller's part.

use vstd::prelude::*;
use vstd::string::*;

use crate::utils::scan::{chars_of, find, pieces, trim, trimmed};
use crate::utils::text::joined;

verus! {

#[derive(Debug, Clone)]
pub struct Settings {
    pub server: ServerConfig,
    pub scylla: ScyllaConfig,
    pub s3: S3Config,
    pub app: AppConfig,
}

#[derive(Debug, Clone)]
pub struct ServerConfig {
    pub host: String,
    pub port: u16,
}

#[derive(Debug, Clone)]
pub struct ScyllaConfig {
    pub nodes: Vec<String>,
    pub keyspace: String,
    pub username: Option<String>,
    pub password: Option<String>,
}

#[derive(Debug, Clone)]
pub struct S3Config {
    pub endpoint: String,
    pub access_key: String,
    pub secret_key: String,
    pub bucket: String,
    pub region: String,
}

/// The two limits that the services enforce.
#[derive(Debug, Clone, Copy, PartialEq, Eq, Structural)]
pub struct AppConfig {
    /// The greatest depth that an appended message may have.
    pub max_lineage_depth: usize,
    /// The greatest number of messages that a fork writes in one batch.
    pub max_batch_size: usize,
}

/// The depth limit where none is configured.
pub const DEFAULT_MAX_LINEAGE_DEPTH: usize = 1000;

/// The batch size where none is configured.
pub const DEFAULT_MAX_BATCH_SIZE: usize = 100;

/// What is configured, as texts: one for each name that can be set, `None`
/// where it is not set.
#[derive(Debug, Default)]
pub struct EnvValues {
    pub server_host: Option<String>,
    pub server_port: Option<String>,
    pub scylla_nodes: Option<String>,
    pub scylla_keyspace: Option<String>,
    pub scylla_username: Option<String>,
    pub scylla_password: Option<String>,
    pub s3_endpoint: Option<String>,
    pub s3_access_key: Option<String>,
    pub s3_secret_key: Option<String>,
    pub s3_bucket: Option<String>,
    pub s3_region: Option<String>,
    pub max_lineage_depth: Option<String>,
    pub max_batch_size: Option<String>,
}

/// What `str::parse::<u16>` makes of a text: the number, or the words of
/// its error.
pub uninterp spec fn parsed_u16(text: Seq<char>) -> Result<u16, Seq<char>>;

/// An outcome that carries its error as a string, with the string by its
/// characters.
pub open spec fn port_view(result: Result<u16, String>) -> Result<u16, Seq<char>> {
    match result {
        Ok(port) => Ok(port),
        Err(words) => Err(words@),
    }
}

/// `str::parse::<u16>` on `text`, with the error as the text of its
/// `Display` impl.
///
/// Trusted: the outcome depends on `text` alone.
#[verifier::external_body]
pub(crate) fn parse_u16(text: &str) -> (parsed: Result<u16, String>)
    ensures
        port_view(parsed) == parsed_u16(text@),
{
    match text.parse::<u16>() {
        Ok(port) => Ok(port),
        Err(error) => Err(error.to_string()),
    }
}

/// A configured text, or the default where none is set.
pub open spec fn text_or(value: Option<String>, default: Seq<char>) -> Seq<char> {
    match value {
        Some(text) => text@,
        None => default,
    }
}

/// The characters of an optional string.
pub open spec fn optional_chars(value: Option<String>) -> Option<Seq<char>> {
    match value {
        Some(text) => Some(text@),
        None => None,
    }
}

/// The characters of each of a list of strings.
pub open spec fn node_texts(nodes: Seq<String>) -> Seq<Seq<char>> {
    nodes.map_values(|s: String| s@)
}

/// The nodes that a list names: its pieces between commas, each trimmed.
pub open spec fn nodes_of(list: Seq<char>) -> Seq<Seq<char>> {
    pieces(list, ',').map_values(|piece: Seq<char>| trimmed(piece))
}

/// Whether `settings` is what `values` configure, with the port `port`:
/// every text that is set stands as it is, the list of nodes is cut at its
/// commas, and what is not set has its default.
pub open spec fn configured(values: EnvValues, port: u16, settings: Settings) -> bool {
    &&& settings.server.host@ == text_or(values.server_host, "0.0.0.0"@)
    &&& settings.server.port == port
    &&& node_texts(settings.scylla.nodes@) == nodes_of(
        text_or(values.scylla_nodes, "localhost:9042"@),
    )
    &&& settings.scylla.keyspace@ == text_or(values.scylla_keyspace, "aigc_history"@)
    &&& optional_chars(settings.scylla.username) == optional_chars(values.scylla_username)
    &&& optional_chars(settings.scylla.password) == optional_chars(values.scylla_password)
    &&& settings.s3.endpoint@ == text_or(values.s3_endpoint, "http://localhost:9000"@)
    &&& settings.s3.access_key@ == text_or(values.s3_access_key, "minioadmin"@)
    &&& settings.s3.secret_key@ == text_or(values.s3_secret_key, "minioadmin"@)
    &&& settings.s3.bucket@ == text_or(values.s3_bucket, "aigc-images"@)
    &&& settings.s3.region@ == text_or(values.s3_region, "us-east-1"@)
    &&& settings.app.max_lineage_depth == limit_or(
        match values.max_lineage_depth {
            Some(text) => Some(parsed_usize(text@)),
            None => None,
        },
        DEFAULT_MAX_LINEAGE_DEPTH,
    )
    &&& settings.app.max_batch_size == limit_or(
        match values.max_batch_size {
            Some(text) => Some(parsed_usize(text@)),
            None => None,
        },
        DEFAULT_MAX_BATCH_SIZE,
    )
}

/// A configured text, or the default where none is set.
pub fn value_or(value: Option<String>, default: &str) -> (text: String)
    ensures
        text@ == text_or(value, default@),
{
    match value {
        Some(text) => text,
        None => default.to_owned(),
    }
}

/// The nodes that a comma-separated list names, each without the white
/// space around it.
pub fn node_list(list: &str) -> (nodes: Vec<String>)
    ensures
        node_texts(nodes@) == nodes_of(list@),
{
    let chars = chars_of(list);
    let n = chars.len();
    let ghost all = chars@;
    let ghost mut found: Seq<Seq<char>> = Seq::empty();
    let mut nodes: Vec<String> = Vec::new();
    let mut start: usize = 0;
    let mut done = false;
    proof {
        assert(all.subrange(0, n as int) =~= all);
        assert(found + pieces(all, ',') =~= pieces(all, ','));
        assert(node_texts(nodes@) =~= found.map_values(|piece: Seq<char>| trimmed(piece)));
    }
    while !done
        invariant
            start <= n == chars@.len(),
            chars@ == list@,
            all == chars@,
            !done ==> pieces(all, ',') == found + pieces(all.subrange(start as int, n as int), ','),
            done ==> pieces(all, ',') == found,
            node_texts(nodes@) == found.map_values(|piece: Seq<char>| trimmed(piece)),
        decreases (if done { 0int } else { 1int }), n - start,
    {
        let ghost rest = all.subrange(start as int, n as int);
        let end = find(&chars, start, n, ',');
        let ghost part = all.subrange(start as int, end as int);
        let kept = trim(&chars, start, end);
        let ghost so_far = node_texts(nodes@);
        nodes.push(list.substring_char(kept.0, kept.1).to_owned());
        proof {
            assert(rest.take(end - start) =~= part);
            assert(node_texts(nodes@) =~= so_far.push(trimmed(part)));
            assert(so_far.push(trimmed(part)) =~= found.push(part).map_values(
                |piece: Seq<char>| trimmed(piece),
            ));
            if end < n {
                assert(rest.skip(end - start + 1) =~= all.subrange(end as int + 1, n as int));
                assert(pieces(rest, ',') == seq![part] + pieces(
                    all.subrange(end as int + 1, n as int),
                    ',',
                ));
                assert(pieces(all, ',') =~= found.push(part) + pieces(
                    all.subrange(end as int + 1, n as int),
                    ',',
                ));
            } else {
                assert(part =~= rest);
                assert(pieces(rest, ',') == seq![rest]);
                assert(pieces(all, ',') =~= found.push(part));
            }
            found = found.push(part);
        }
        if end < n {
            start = end + 1;
        } else {
            done = true;
        }
    }
    nodes
}

impl Settings {
    /// The settings that `values` configure. Only a port that is no number
    /// is an error; limits that are no numbers fall back to their defaults.
    pub fn from_values(values: EnvValues) -> (result: Result<Self, String>)
        ensures
            match parsed_u16(text_or(values.server_port, "8080"@)) {
                Ok(port) => result matches Ok(settings) && configured(values, port, settings),
                Err(reason) => result matches Err(words) && words@ == "Invalid SERVER_PORT: "@
                    + reason,
            },
    {
        let EnvValues {
            server_host,
            server_port,
            scylla_nodes,
            scylla_keyspace,
            scylla_username,
            scylla_password,
            s3_endpoint,
            s3_access_key,
            s3_secret_key,
            s3_bucket,
            s3_region,
            max_lineage_depth,
            max_batch_size,
        } = values;
        let port = match parse_u16(value_or(server_port, "8080").as_str()) {
            Ok(port) => port,
            Err(reason) => {
                return Err(joined("Invalid SERVER_PORT: ", reason.as_str()));
            },
        };
        let depth = match &max_lineage_depth {
            Some(text) => Some(text.as_str()),
            None => None,
        };
        let batch = match &max_batch_size {
            Some(text) => Some(text.as_str()),
            None => None,
        };
        Ok(
            Settings {
                server: ServerConfig { host: value_or(server_host, "0.0.0.0"), port },
                scylla: ScyllaConfig {
                    nodes: node_list(value_or(scylla_nodes, "localhost:9042").as_str()),
                    keyspace: value_or(scylla_keyspace, "aigc_history"),
                    username: scylla_username,
                    password: scylla_password,
                },
                s3: S3Config {
                    endpoint: value_or(s3_endpoint, "http://localhost:9000"),
                    access_key: value_or(s3_access_key, "minioadmin"),
                    secret_key: value_or(s3_secret_key, "minioadmin"),
                    bucket: value_or(s3_bucket, "aigc-images"),
                    region: value_or(s3_region, "us-east-1"),
                },
                app: AppConfig::from_values(depth, batch),
            },
        )
    }
}

/// The number that `str::parse::<usize>` reads from a text, if it reads
/// one.
pub uninterp spec fn parsed_usize(text: Seq<char>) -> Option<usize>;

/// `str::parse::<usize>` on `text`, without the reason of a failure.
///
/// Trusted: the outcome depends on `text` alone.
#[verifier::external_body]
pub(crate) fn parse_usize(text: &str) -> (parsed: Option<usize>)
    ensures
        parsed == parsed_usize(text@),
{
    text.parse::<usize>().ok()
}

/// A configured limit: the number that was read, or the default where
/// nothing was configured or what was configured is no number.
pub open spec fn limit_or(parsed: Option<Option<usize>>, default: usize) -> usize {
    match parsed {
        Some(Some(limit)) => limit,
        _ => default,
    }
}

/// What is read from an optional text.
pub open spec fn parsed_limit(text: Option<&str>) -> Option<Option<usize>> {
    match text {
        Some(t) => Some(parsed_usize(t@)),
        None => None,
    }
}

/// Picks a limit: the number that was read, or the default.
pub fn choose_limit(parsed: Option<Option<usize>>, default: usize) -> (limit: usize)
    ensures
        limit == limit_or(parsed, default),
{
    match parsed {
        Some(Some(limit)) => limit,
        _ => default,
    }
}

impl AppConfig {
    /// The limits from the texts that were configured for them, if any.
    pub fn from_values(max_lineage_depth: Option<&str>, max_batch_size: Option<&str>) -> (config:
        Self)
        ensures
            config.max_lineage_depth == limit_or(
                parsed_limit(max_lineage_depth),
                DEFAULT_MAX_LINEAGE_DEPTH,
            ),
            config.max_batch_size == limit_or(
                parsed_limit(max_batch_size),
                DEFAULT_MAX_BATCH_SIZE,
            ),
    {
        let depth = match max_lineage_depth {
            Some(text) => Some(parse_usize(text)),
            None => None,
        };
        let batch = match max_batch_size {
            Some(text) => Some(parse_usize(text)),
            None => None,
        };
        AppConfig {
            max_lineage_depth: choose_limit(depth, DEFAULT_MAX_LINEAGE_DEPTH),
            max_batch_size: choose_limit(batch, DEFAULT_MAX_BATCH_SIZE),
        }
    }
}

impl Default for AppConfig {
    fn default() -> (config: Self)
        ensures
            config.max_lineage_depth == DEFAULT_MAX_LINEAGE_DEPTH,
            config.max_batch_size == DEFAULT_MAX_BATCH_SIZE,
    {
        AppConfig {
            max_lineage_depth: DEFAULT_MAX_LINEAGE_DEPTH,
            max_batch_size: DEFAULT_MAX_BATCH_SIZE,
        }
    }
}

} // verus!
