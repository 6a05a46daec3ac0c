//! The configuration: its values, their defaults, and access by key.

use vstd::prelude::*;
use vstd::string::*;
use crate::error::{ConfigError, EddaError, EddaResult};
use crate::text::{
    chars_of, decimal, has_prefix, join, joined, lowercase_of, parse_u64, push_char, split,
    split_on, starts_with, str_eq, to_lowercase, trim, trimmed, u64_numeral, u64_to_string, texts,
};

verus! {

/// The settings of the GitHub synchronisation.
#[derive(Debug)]
pub struct GitHubConfig {
    /// The repository, as `owner/repo`.
    pub repository: Option<String>,
    /// Seconds between two synchronisations.
    pub sync_interval: u64,
    /// `issues`, `projects` or `both`.
    pub sync_mode: String,
    /// The project boards to synchronise.
    pub project_ids: Vec<u64>,
    /// Column names of the project boards, each with the task status it
    /// stands for.
    pub column_mapping: Vec<(String, String)>,
}

/// The settings of the database.
#[derive(Debug)]
pub struct DatabaseConfig {
    /// For SQLite, `sqlite:` and the path of the file.
    pub url: String,
    pub max_connections: u32,
}

/// The whole configuration.
#[derive(Debug)]
pub struct EddaConfig {
    /// The directory that holds the data.
    pub data_dir: String,
    /// `trace`, `debug`, `info`, `warn` or `error`.
    pub log_level: String,
    /// `text`, `json` or `yaml`.
    pub output_format: String,
    pub github: GitHubConfig,
    pub database: DatabaseConfig,
}

/// The model of a [`GitHubConfig`].
pub ghost struct GitHubConfigView {
    pub repository: Option<Seq<char>>,
    pub sync_interval: u64,
    pub sync_mode: Seq<char>,
    pub project_ids: Seq<u64>,
    pub column_mapping: Seq<(Seq<char>, Seq<char>)>,
}

/// The model of a [`DatabaseConfig`].
pub ghost struct DatabaseConfigView {
    pub url: Seq<char>,
    pub max_connections: u32,
}

/// The model of an [`EddaConfig`].
pub ghost struct ConfigView {
    pub data_dir: Seq<char>,
    pub log_level: Seq<char>,
    pub output_format: Seq<char>,
    pub github: GitHubConfigView,
    pub database: DatabaseConfigView,
}

/// The characters of each pair of a mapping.
pub open spec fn pair_views(pairs: Seq<(String, String)>) -> Seq<(Seq<char>, Seq<char>)> {
    Seq::new(pairs.len(), |i: int| (pairs[i].0@, pairs[i].1@))
}

impl View for GitHubConfig {
    type V = GitHubConfigView;

    open spec fn view(&self) -> GitHubConfigView {
        GitHubConfigView {
            repository: match self.repository {
                Some(r) => Some(r@),
                None => None,
            },
            sync_interval: self.sync_interval,
            sync_mode: self.sync_mode@,
            project_ids: self.project_ids@,
            column_mapping: pair_views(self.column_mapping@),
        }
    }
}

impl View for DatabaseConfig {
    type V = DatabaseConfigView;

    open spec fn view(&self) -> DatabaseConfigView {
        DatabaseConfigView { url: self.url@, max_connections: self.max_connections }
    }
}

impl View for EddaConfig {
    type V = ConfigView;

    open spec fn view(&self) -> ConfigView {
        ConfigView {
            data_dir: self.data_dir@,
            log_level: self.log_level@,
            output_format: self.output_format@,
            github: self.github@,
            database: self.database@,
        }
    }
}

/// One of the five log levels.
pub open spec fn valid_log_level(s: Seq<char>) -> bool {
    s == "trace"@ || s == "debug"@ || s == "info"@ || s == "warn"@ || s == "error"@
}

/// One of the three output formats.
pub open spec fn valid_output_format(s: Seq<char>) -> bool {
    s == "text"@ || s == "json"@ || s == "yaml"@
}

/// One of the three synchronisation modes.
pub open spec fn valid_sync_mode(s: Seq<char>) -> bool {
    s == "issues"@ || s == "projects"@ || s == "both"@
}

/// A mode that synchronises project boards.
pub open spec fn needs_projects(s: Seq<char>) -> bool {
    s == "projects"@ || s == "both"@
}

/// Whether `s` names one of the five log levels.
pub fn is_valid_log_level(s: &str) -> (r: bool)
    ensures
        r == valid_log_level(s@),
{
    str_eq(s, "trace") || str_eq(s, "debug") || str_eq(s, "info") || str_eq(s, "warn") || str_eq(
        s,
        "error",
    )
}

/// Whether `s` names one of the three output formats.
pub fn is_valid_output_format(s: &str) -> (r: bool)
    ensures
        r == valid_output_format(s@),
{
    str_eq(s, "text") || str_eq(s, "json") || str_eq(s, "yaml")
}

/// Whether `s` names one of the three synchronisation modes.
pub fn is_valid_sync_mode(s: &str) -> (r: bool)
    ensures
        r == valid_sync_mode(s@),
{
    str_eq(s, "issues") || str_eq(s, "projects") || str_eq(s, "both")
}

/// The identifiers among `pieces`: each piece that, without the white
/// space around it, is a numeral within the range of `u64`.
pub open spec fn ids_in(pieces: Seq<Seq<char>>) -> Seq<u64>
    decreases pieces.len(),
{
    if pieces.len() == 0 {
        Seq::empty()
    } else {
        match u64_numeral(trimmed(pieces.last())) {
            Some(n) => ids_in(pieces.drop_last()).push(n),
            None => ids_in(pieces.drop_last()),
        }
    }
}

/// The names of a mapping, in order.
pub open spec fn names_of(m: Seq<(Seq<char>, Seq<char>)>) -> Seq<Seq<char>> {
    Seq::new(m.len(), |i: int| m[i].0)
}

/// A mapping after `name` is given `status`: in place of the first pair
/// with that name, or as a new last pair.
pub open spec fn with_pair(m: Seq<(Seq<char>, Seq<char>)>, name: Seq<char>, status: Seq<char>)
    -> Seq<(Seq<char>, Seq<char>)> {
    match names_of(m).index_of_first(name) {
        Some(i) => m.update(i, (name, status)),
        None => m.push((name, status)),
    }
}

/// The mapping that `pieces` spell: each piece with exactly one `=` gives
/// the name before it the status after it; every other piece is passed
/// over.
pub open spec fn mapping_in(pieces: Seq<Seq<char>>) -> Seq<(Seq<char>, Seq<char>)>
    decreases pieces.len(),
{
    if pieces.len() == 0 {
        Seq::empty()
    } else {
        let earlier = mapping_in(pieces.drop_last());
        let parts = split_on(pieces.last(), '=');
        if parts.len() == 2 {
            with_pair(earlier, parts[0], parts[1])
        } else {
            earlier
        }
    }
}

/// The first fault of a column mapping: a pair with an empty name or an
/// empty status.
pub open spec fn mapping_fault(m: Seq<(Seq<char>, Seq<char>)>) -> Option<Seq<char>>
    decreases m.len(),
{
    if m.len() == 0 {
        None
    } else {
        match mapping_fault(m.drop_last()) {
            Some(f) => Some(f),
            None => if m.last().0.len() == 0 || m.last().1.len() == 0 {
                Some("Invalid column_mapping entry: "@ + m.last().0 + "="@ + m.last().1)
            } else {
                None
            },
        }
    }
}

impl ConfigView {
    /// The text of the value under `key`; `None` for a key that the
    /// configuration does not have, and for the repository while it is not
    /// set.
    pub open spec fn value_of(self, key: Seq<char>) -> Option<Seq<char>> {
        if key == "data_dir"@ {
            Some(self.data_dir)
        } else if key == "log_level"@ {
            Some(self.log_level)
        } else if key == "output_format"@ {
            Some(self.output_format)
        } else if key == "database.url"@ {
            Some(self.database.url)
        } else if key == "database.max_connections"@ {
            Some(decimal(self.database.max_connections as nat))
        } else if key == "github.repository"@ {
            self.github.repository
        } else if key == "github.sync_interval"@ {
            Some(decimal(self.github.sync_interval as nat))
        } else if key == "github.sync_mode"@ {
            Some(self.github.sync_mode)
        } else if key == "github.project_ids"@ {
            Some(joined(id_texts(self.github.project_ids), ","@))
        } else if key == "github.column_mapping"@ {
            Some(joined(pair_texts(self.github.column_mapping), ","@))
        } else {
            None
        }
    }

    /// The configuration after `key` is set to the value that `value`
    /// spells, or the message that says why it cannot be.
    pub open spec fn assigned(self, key: Seq<char>, value: Seq<char>) -> Result<
        ConfigView,
        Seq<char>,
    > {
        if key == "data_dir"@ {
            Ok(ConfigView { data_dir: value, ..self })
        } else if key == "log_level"@ {
            if valid_log_level(value) {
                Ok(ConfigView { log_level: value, ..self })
            } else {
                Err("Invalid log level: "@ + value)
            }
        } else if key == "output_format"@ {
            if valid_output_format(value) {
                Ok(ConfigView { output_format: value, ..self })
            } else {
                Err("Invalid output format: "@ + value)
            }
        } else if key == "database.url"@ {
            Ok(ConfigView { database: DatabaseConfigView { url: value, ..self.database }, ..self })
        } else if key == "database.max_connections"@ {
            match u64_numeral(value) {
                Some(n) => if n <= u32::MAX {
                    Ok(
                        ConfigView {
                            database: DatabaseConfigView {
                                max_connections: n as u32,
                                ..self.database
                            },
                            ..self
                        },
                    )
                } else {
                    Err("Invalid max_connections value: "@ + value)
                },
                None => Err("Invalid max_connections value: "@ + value),
            }
        } else if key == "github.repository"@ {
            Ok(
                ConfigView {
                    github: GitHubConfigView { repository: Some(value), ..self.github },
                    ..self
                },
            )
        } else if key == "github.sync_interval"@ {
            match u64_numeral(value) {
                Some(n) => Ok(
                    ConfigView {
                        github: GitHubConfigView { sync_interval: n, ..self.github },
                        ..self
                    },
                ),
                None => Err("Invalid sync_interval value: "@ + value),
            }
        } else if key == "github.sync_mode"@ {
            if valid_sync_mode(value) {
                Ok(
                    ConfigView {
                        github: GitHubConfigView { sync_mode: value, ..self.github },
                        ..self
                    },
                )
            } else {
                Err("Invalid sync_mode: "@ + value)
            }
        } else if key == "github.project_ids"@ {
            Ok(
                ConfigView {
                    github: GitHubConfigView {
                        project_ids: ids_in(split_on(value, ',')),
                        ..self.github
                    },
                    ..self
                },
            )
        } else if key == "github.column_mapping"@ {
            Ok(
                ConfigView {
                    github: GitHubConfigView {
                        column_mapping: mapping_in(split_on(value, ',')),
                        ..self.github
                    },
                    ..self
                },
            )
        } else {
            Err("Unknown configuration key: "@ + key)
        }
    }

    /// The first fault of the configuration, if it has one: an unknown log
    /// level, output format or synchronisation mode, a mode that needs
    /// project boards without any, or a faulty column mapping.
    pub open spec fn fault(self) -> Option<Seq<char>> {
        if !valid_log_level(self.log_level) {
            Some("Invalid log level: "@ + self.log_level)
        } else if !valid_output_format(self.output_format) {
            Some("Invalid output format: "@ + self.output_format)
        } else if !valid_sync_mode(self.github.sync_mode) {
            Some("Invalid sync_mode: "@ + self.github.sync_mode)
        } else if needs_projects(self.github.sync_mode) && self.github.project_ids.len() == 0 {
            Some("project_ids is required when sync_mode is 'projects' or 'both'"@)
        } else {
            mapping_fault(self.github.column_mapping)
        }
    }
}

/// Whether `r` is the configuration error with the message `message`.
pub open spec fn config_rejected<T>(r: EddaResult<T>, message: Seq<char>) -> bool {
    r matches Err(EddaError::Config(ConfigError::Validation { message: m })) && m@ == message
}

fn config_error(prefix: &str, detail: &str) -> (e: EddaError)
    ensures
        e matches EddaError::Config(ConfigError::Validation { message }) && message@ == prefix@
            + detail@,
{
    let mut message = prefix.to_owned();
    message.append(detail);
    EddaError::Config(ConfigError::Validation { message })
}

/// Reads the identifiers of project boards from the pieces of a list.
pub fn collect_ids(pieces: &Vec<String>) -> (r: Vec<u64>)
    ensures
        r@ == ids_in(texts(pieces@)),
{
    let mut r: Vec<u64> = Vec::new();
    let mut i: usize = 0;
    while i < pieces.len()
        invariant
            i <= pieces.len(),
            r@ == ids_in(texts(pieces@).take(i as int)),
        decreases pieces.len() - i,
    {
        let ghost prefix = texts(pieces@).take(i as int + 1);
        assert(prefix.drop_last() =~= texts(pieces@).take(i as int));
        assert(prefix.last() == pieces@[i as int]@);
        let piece = trim(pieces[i].as_str());
        match parse_u64(piece.as_str()) {
            Some(n) => {
                r.push(n);
            },
            None => {},
        }
        i = i + 1;
    }
    assert(texts(pieces@).take(pieces.len() as int) =~= texts(pieces@));
    r
}

/// Gives `name` the status `status` in a column mapping.
pub fn set_pair(mapping: &mut Vec<(String, String)>, name: String, status: String)
    ensures
        pair_views(final(mapping)@) == with_pair(pair_views(old(mapping)@), name@, status@),
{
    let ghost before = pair_views(mapping@);
    let ghost names = names_of(before);
    proof {
        names.index_of_first_ensures(name@);
    }
    let mut i: usize = 0;
    while i < mapping.len()
        invariant
            i <= mapping.len(),
            pair_views(mapping@) == before,
            before == pair_views(old(mapping)@),
            names == names_of(before),
            forall|j: int| 0 <= j < i ==> names[j] != name@,
        decreases mapping.len() - i,
    {
        if str_eq(mapping[i].0.as_str(), name.as_str()) {
            proof {
                assert(names[i as int] == name@);
                assert(names.contains(name@));
                names.index_of_first_ensures(name@);
                assert(names.index_of_first(name@) is Some);
                let first = names.index_of_first(name@)->0;
                if first < i {
                    assert(names[first] != name@);
                }
                if i < first {
                    assert(names[i as int] != name@);
                }
                assert(first == i);
            }
            mapping.set(i, (name, status));
            assert(pair_views(mapping@) =~= before.update(i as int, (name@, status@)));
            return ;
        }
        i = i + 1;
    }
    proof {
        names.index_of_first_ensures(name@);
        if names.contains(name@) {
            let j = names.index_of_first(name@)->0;
            assert(names[j] != name@);
        }
    }
    mapping.push((name, status));
    assert(pair_views(mapping@) =~= before.push((name@, status@)));
}

/// Reads a column mapping from the pieces of a list of `name=status`.
pub fn collect_mapping(pieces: &Vec<String>) -> (r: Vec<(String, String)>)
    ensures
        pair_views(r@) == mapping_in(texts(pieces@)),
{
    let mut r: Vec<(String, String)> = Vec::new();
    assert(pair_views(r@) =~= mapping_in(texts(pieces@).take(0)));
    let mut i: usize = 0;
    while i < pieces.len()
        invariant
            i <= pieces.len(),
            pair_views(r@) == mapping_in(texts(pieces@).take(i as int)),
        decreases pieces.len() - i,
    {
        let ghost prefix = texts(pieces@).take(i as int + 1);
        assert(prefix.drop_last() =~= texts(pieces@).take(i as int));
        assert(prefix.last() == pieces@[i as int]@);
        let parts = split(pieces[i].as_str(), '=');
        if parts.len() == 2 {
            assert(texts(parts@)[0] == parts@[0]@);
            assert(texts(parts@)[1] == parts@[1]@);
            set_pair(&mut r, parts[0].clone(), parts[1].clone());
        }
        i = i + 1;
    }
    assert(texts(pieces@).take(pieces.len() as int) =~= texts(pieces@));
    r
}

/// The five log levels.
#[derive(Debug, Clone, Copy, PartialEq, Eq, Structural)]
pub enum LogLevel {
    Trace,
    Debug,
    Info,
    Warn,
    Error,
}

/// The log level that a lowercase name denotes.
pub open spec fn level_named(lower: Seq<char>) -> Option<LogLevel> {
    if lower == "trace"@ {
        Some(LogLevel::Trace)
    } else if lower == "debug"@ {
        Some(LogLevel::Debug)
    } else if lower == "info"@ {
        Some(LogLevel::Info)
    } else if lower == "warn"@ {
        Some(LogLevel::Warn)
    } else if lower == "error"@ {
        Some(LogLevel::Error)
    } else {
        None
    }
}

/// Reads a log level from `level`, of which `lower` is the lowercase form.
pub fn log_level_from_lowercase(level: &str, lower: &str) -> (r: Result<LogLevel, String>)
    ensures
        match level_named(lower@) {
            Some(l) => r == Ok::<LogLevel, String>(l),
            None => r matches Err(m) && m@ == "Invalid log level: "@ + level@,
        },
{
    if str_eq(lower, "trace") {
        Ok(LogLevel::Trace)
    } else if str_eq(lower, "debug") {
        Ok(LogLevel::Debug)
    } else if str_eq(lower, "info") {
        Ok(LogLevel::Info)
    } else if str_eq(lower, "warn") {
        Ok(LogLevel::Warn)
    } else if str_eq(lower, "error") {
        Ok(LogLevel::Error)
    } else {
        let mut m = "Invalid log level: ".to_owned();
        m.append(level);
        Err(m)
    }
}

/// Reads a log level by its name, whatever the case of its letters.
pub fn parse_log_level(level: &str) -> (r: Result<LogLevel, String>)
    ensures
        match level_named(lowercase_of(level@)) {
            Some(l) => r == Ok::<LogLevel, String>(l),
            None => r matches Err(m) && m@ == "Invalid log level: "@ + level@,
        },
{
    let lower = to_lowercase(level);
    log_level_from_lowercase(level, lower.as_str())
}

/// A text without every leading repetition of `prefix`.
pub open spec fn without_leading(s: Seq<char>, prefix: Seq<char>) -> Seq<char>
    decreases s.len(),
{
    if prefix.len() > 0 && has_prefix(s, prefix) {
        without_leading(s.subrange(prefix.len() as int, s.len() as int), prefix)
    } else {
        s
    }
}

/// The file of the database: what follows `sqlite:` in the database
/// address, or `edda.db` in the data directory for any other address.
pub open spec fn database_file_of(c: ConfigView) -> Seq<char> {
    if has_prefix(c.database.url, "sqlite:"@) {
        without_leading(c.database.url, "sqlite:"@)
    } else {
        crate::storage::path_join(c.data_dir, "edda.db"@)
    }
}

/// The log level of a new configuration.
pub fn default_log_level() -> (r: String)
    ensures
        r@ == "info"@,
{
    "info".to_owned()
}

/// The output format of a new configuration.
pub fn default_output_format() -> (r: String)
    ensures
        r@ == "text"@,
{
    "text".to_owned()
}

/// The seconds between two synchronisations in a new configuration.
pub fn default_sync_interval() -> (r: u64)
    ensures
        r == 300,
{
    300
}

/// The synchronisation mode of a new configuration.
pub fn default_sync_mode() -> (r: String)
    ensures
        r@ == "issues"@,
{
    "issues".to_owned()
}

/// The column names of a new project board with the statuses they stand
/// for.
pub fn default_column_mapping() -> (r: Vec<(String, String)>)
    ensures
        r@.len() == 3,
        r@[0].0@ == "To Do"@ && r@[0].1@ == "todo"@,
        r@[1].0@ == "In Progress"@ && r@[1].1@ == "in_progress"@,
        r@[2].0@ == "Done"@ && r@[2].1@ == "done"@,
{
    let mut r: Vec<(String, String)> = Vec::new();
    r.push(("To Do".to_owned(), "todo".to_owned()));
    r.push(("In Progress".to_owned(), "in_progress".to_owned()));
    r.push(("Done".to_owned(), "done".to_owned()));
    r
}

/// The database address of a new configuration.
pub fn default_database_url() -> (r: String)
    ensures
        r@ == "sqlite:edda.db"@,
{
    "sqlite:edda.db".to_owned()
}

/// The number of database connections of a new configuration.
pub fn default_max_connections() -> (r: u32)
    ensures
        r == 5,
{
    5
}

impl Default for GitHubConfig {
    fn default() -> (c: GitHubConfig)
        ensures
            c.repository is None,
            c.sync_interval == 300,
            c.sync_mode@ == "issues"@,
            c.project_ids@.len() == 0,
            c.column_mapping@.len() == 3,
    {
        GitHubConfig {
            repository: None,
            sync_interval: default_sync_interval(),
            sync_mode: default_sync_mode(),
            project_ids: Vec::new(),
            column_mapping: default_column_mapping(),
        }
    }
}

impl Default for DatabaseConfig {
    fn default() -> (c: DatabaseConfig)
        ensures
            c.url@ == "sqlite:edda.db"@,
            c.max_connections == 5,
    {
        DatabaseConfig { url: default_database_url(), max_connections: default_max_connections() }
    }
}

/// The numerals of a list of identifiers.
pub open spec fn id_texts(ids: Seq<u64>) -> Seq<Seq<char>> {
    Seq::new(ids.len(), |i: int| decimal(ids[i] as nat))
}

/// Each pair of a mapping as `name=status`.
pub open spec fn pair_texts(pairs: Seq<(Seq<char>, Seq<char>)>) -> Seq<Seq<char>> {
    Seq::new(pairs.len(), |i: int| pairs[i].0 + "="@ + pairs[i].1)
}

impl EddaConfig {
    /// The default configuration for the data directory `data_dir`.
    pub fn new(data_dir: String) -> (c: EddaConfig)
        ensures
            c.data_dir@ == data_dir@,
            c.log_level@ == "info"@,
            c.output_format@ == "text"@,
            c.github.repository is None,
            c.github.sync_interval == 300,
            c.github.sync_mode@ == "issues"@,
            c.github.project_ids@.len() == 0,
            c.github.column_mapping@.len() == 3,
            c.database.url@ == "sqlite:edda.db"@,
            c.database.max_connections == 5,
    {
        EddaConfig {
            data_dir,
            log_level: default_log_level(),
            output_format: default_output_format(),
            github: GitHubConfig::default(),
            database: DatabaseConfig::default(),
        }
    }

    /// The value under `key` as text: numbers in decimal, the project
    /// boards separated by commas, the column mapping as `name=status`
    /// pairs separated by commas.
    pub fn get_value(&self, key: &str) -> (r: Option<String>)
        ensures
            match self@.value_of(key@) {
                Some(text) => r matches Some(s) && s@ == text,
                None => r is None,
            },
    {
        if str_eq(key, "data_dir") {
            Some(self.data_dir.clone())
        } else if str_eq(key, "log_level") {
            Some(self.log_level.clone())
        } else if str_eq(key, "output_format") {
            Some(self.output_format.clone())
        } else if str_eq(key, "database.url") {
            Some(self.database.url.clone())
        } else if str_eq(key, "database.max_connections") {
            Some(u64_to_string(self.database.max_connections as u64))
        } else if str_eq(key, "github.repository") {
            match &self.github.repository {
                Some(r) => Some(r.clone()),
                None => None,
            }
        } else if str_eq(key, "github.sync_interval") {
            Some(u64_to_string(self.github.sync_interval))
        } else if str_eq(key, "github.sync_mode") {
            Some(self.github.sync_mode.clone())
        } else if str_eq(key, "github.project_ids") {
            let ids = &self.github.project_ids;
            let mut parts: Vec<String> = Vec::new();
            let mut i: usize = 0;
            while i < ids.len()
                invariant
                    i <= ids.len(),
                    parts.len() == i,
                    forall|j: int| 0 <= j < i ==> parts@[j]@ == decimal(ids@[j] as nat),
                decreases ids.len() - i,
            {
                parts.push(u64_to_string(ids[i]));
                i = i + 1;
            }
            assert(texts(parts@) =~= id_texts(ids@));
            Some(join(&parts, ","))
        } else if str_eq(key, "github.column_mapping") {
            let pairs = &self.github.column_mapping;
            let mut parts: Vec<String> = Vec::new();
            let mut i: usize = 0;
            while i < pairs.len()
                invariant
                    i <= pairs.len(),
                    parts.len() == i,
                    forall|j: int|
                        0 <= j < i ==> parts@[j]@ == pairs@[j].0@ + "="@ + pairs@[j].1@,
                decreases pairs.len() - i,
            {
                let mut part = pairs[i].0.clone();
                part.append("=");
                part.append(pairs[i].1.as_str());
                parts.push(part);
                i = i + 1;
            }
            assert(texts(parts@) =~= pair_texts(pair_views(pairs@)));
            Some(join(&parts, ","))
        } else {
            None
        }
    }
}

impl EddaConfig {
    /// Sets the value under `key` to what `value` spells. A level, format
    /// or mode must be one of the known ones, and a number a numeral
    /// within range; a list of project boards keeps the entries that are
    /// numerals, and a column mapping the entries of the form
    /// `name=status`. Where the key is unknown or the value not
    /// acceptable, the configuration stays as it is.
    pub fn set_value(&mut self, key: &str, value: &str) -> (r: EddaResult<()>)
        ensures
            match old(self)@.assigned(key@, value@) {
                Ok(c) => r is Ok && final(self)@ == c,
                Err(m) => final(self)@ == old(self)@ && config_rejected(r, m),
            },
    {
        if str_eq(key, "data_dir") {
            self.data_dir = value.to_owned();
            Ok(())
        } else if str_eq(key, "log_level") {
            if !is_valid_log_level(value) {
                return Err(config_error("Invalid log level: ", value));
            }
            self.log_level = value.to_owned();
            Ok(())
        } else if str_eq(key, "output_format") {
            if !is_valid_output_format(value) {
                return Err(config_error("Invalid output format: ", value));
            }
            self.output_format = value.to_owned();
            Ok(())
        } else if str_eq(key, "database.url") {
            self.database.url = value.to_owned();
            Ok(())
        } else if str_eq(key, "database.max_connections") {
            match parse_u64(value) {
                Some(n) => {
                    if n <= 0xFFFF_FFFF {
                        self.database.max_connections = n as u32;
                        Ok(())
                    } else {
                        Err(config_error("Invalid max_connections value: ", value))
                    }
                },
                None => Err(config_error("Invalid max_connections value: ", value)),
            }
        } else if str_eq(key, "github.repository") {
            self.github.repository = Some(value.to_owned());
            Ok(())
        } else if str_eq(key, "github.sync_interval") {
            match parse_u64(value) {
                Some(n) => {
                    self.github.sync_interval = n;
                    Ok(())
                },
                None => Err(config_error("Invalid sync_interval value: ", value)),
            }
        } else if str_eq(key, "github.sync_mode") {
            if !is_valid_sync_mode(value) {
                return Err(config_error("Invalid sync_mode: ", value));
            }
            self.github.sync_mode = value.to_owned();
            Ok(())
        } else if str_eq(key, "github.project_ids") {
            let pieces = split(value, ',');
            self.github.project_ids = collect_ids(&pieces);
            Ok(())
        } else if str_eq(key, "github.column_mapping") {
            let pieces = split(value, ',');
            self.github.column_mapping = collect_mapping(&pieces);
            Ok(())
        } else {
            Err(config_error("Unknown configuration key: ", key))
        }
    }

    /// Applies what the environment sets: each value that is present
    /// replaces the one of the configuration.
    pub fn override_from_env(
        &mut self,
        data_dir: Option<String>,
        log_level: Option<String>,
        output_format: Option<String>,
        repository: Option<String>,
        database_url: Option<String>,
    )
        ensures
            final(self)@ == (ConfigView {
                data_dir: match data_dir {
                    Some(v) => v@,
                    None => old(self)@.data_dir,
                },
                log_level: match log_level {
                    Some(v) => v@,
                    None => old(self)@.log_level,
                },
                output_format: match output_format {
                    Some(v) => v@,
                    None => old(self)@.output_format,
                },
                github: GitHubConfigView {
                    repository: match repository {
                        Some(v) => Some(v@),
                        None => old(self)@.github.repository,
                    },
                    ..old(self)@.github
                },
                database: DatabaseConfigView {
                    url: match database_url {
                        Some(v) => v@,
                        None => old(self)@.database.url,
                    },
                    ..old(self)@.database
                },
            }),
    {
        match data_dir {
            Some(v) => {
                self.data_dir = v;
            },
            None => {},
        }
        match log_level {
            Some(v) => {
                self.log_level = v;
            },
            None => {},
        }
        match output_format {
            Some(v) => {
                self.output_format = v;
            },
            None => {},
        }
        match repository {
            Some(v) => {
                self.github.repository = Some(v);
            },
            None => {},
        }
        match database_url {
            Some(v) => {
                self.database.url = v;
            },
            None => {},
        }
    }

    /// Applies the options of the command line: a data directory and an
    /// output format where given, and the log level `debug` where verbose
    /// output is asked for.
    pub fn apply_options(&mut self, data_dir: Option<String>, format: Option<String>, verbose: bool)
        ensures
            final(self)@ == (ConfigView {
                data_dir: match data_dir {
                    Some(v) => v@,
                    None => old(self)@.data_dir,
                },
                output_format: match format {
                    Some(v) => v@,
                    None => old(self)@.output_format,
                },
                log_level: if verbose {
                    "debug"@
                } else {
                    old(self)@.log_level
                },
                ..old(self)@
            }),
    {
        match data_dir {
            Some(v) => {
                self.data_dir = v;
            },
            None => {},
        }
        match format {
            Some(v) => {
                self.output_format = v;
            },
            None => {},
        }
        if verbose {
            self.log_level = "debug".to_owned();
        }
    }

    /// The file of the database.
    pub fn database_file(&self) -> (r: String)
        ensures
            r@ == database_file_of(self@),
    {
        if starts_with(self.database.url.as_str(), "sqlite:") {
            strip_leading(self.database.url.as_str(), "sqlite:")
        } else {
            crate::storage::join_path(self.data_dir.as_str(), "edda.db")
        }
    }
}

/// Removes every leading repetition of `prefix` from a text.
pub fn strip_leading(s: &str, prefix: &str) -> (r: String)
    ensures
        r@ == without_leading(s@, prefix@),
{
    let a = chars_of(s);
    let b = chars_of(prefix);
    let mut start: usize = 0;
    assert(s@.subrange(0, s@.len() as int) =~= s@);
    if b.len() > 0 {
        loop
            invariant
                start <= a.len(),
                a@ == s@,
                b@ == prefix@,
                b.len() > 0,
                without_leading(s@, prefix@) == without_leading(
                    s@.subrange(start as int, s@.len() as int),
                    prefix@,
                ),
            ensures
                start <= a.len(),
                without_leading(s@, prefix@) == s@.subrange(start as int, s@.len() as int),
            decreases a.len() - start,
        {
            let ghost rest = s@.subrange(start as int, s@.len() as int);
            if b.len() > a.len() - start {
                break ;
            }
            let mut i: usize = 0;
            let mut same: bool = true;
            while i < b.len()
                invariant
                    i <= b.len(),
                    start + b.len() <= a.len(),
                    a@ == s@,
                    b@ == prefix@,
                    rest == s@.subrange(start as int, s@.len() as int),
                    same ==> forall|j: int| 0 <= j < i ==> rest[j] == b@[j],
                    !same ==> !has_prefix(rest, prefix@),
                decreases b.len() - i,
            {
                if same && a[start + i] != b[i] {
                    same = false;
                    assert(rest.subrange(0, prefix@.len() as int)[i as int] != prefix@[i as int]);
                }
                i = i + 1;
            }
            if !same {
                break ;
            }
            assert(rest.subrange(0, prefix@.len() as int) =~= prefix@);
            assert(rest.subrange(prefix@.len() as int, rest.len() as int) =~= s@.subrange(
                start + b.len(),
                s@.len() as int,
            ));
            start = start + b.len();
        }
    } else {
        assert(s@.subrange(0, s@.len() as int) =~= s@);
    }
    let mut r = String::new();
    let mut k: usize = start;
    while k < a.len()
        invariant
            start <= k <= a.len(),
            a@ == s@,
            r@ == s@.subrange(start as int, k as int),
        decreases a.len() - k,
    {
        push_char(&mut r, a[k]);
        assert(r@ =~= s@.subrange(start as int, k as int + 1));
        k = k + 1;
    }
    r
}

/// Checks a configuration and reports its first fault.
pub fn validate_config(config: &EddaConfig) -> (r: EddaResult<()>)
    ensures
        match config@.fault() {
            Some(m) => config_rejected(r, m),
            None => r is Ok,
        },
{
    if !is_valid_log_level(config.log_level.as_str()) {
        return Err(config_error("Invalid log level: ", config.log_level.as_str()));
    }
    if !is_valid_output_format(config.output_format.as_str()) {
        return Err(config_error("Invalid output format: ", config.output_format.as_str()));
    }
    let mode = config.github.sync_mode.as_str();
    if !is_valid_sync_mode(mode) {
        return Err(config_error("Invalid sync_mode: ", mode));
    }
    if (str_eq(mode, "projects") || str_eq(mode, "both")) && config.github.project_ids.len() == 0 {
        return Err(
            EddaError::Config(
                ConfigError::Validation {
                    message: "project_ids is required when sync_mode is 'projects' or 'both'"
                        .to_owned(),
                },
            ),
        );
    }
    let pairs = &config.github.column_mapping;
    let ghost views = pair_views(pairs@);
    let mut i: usize = 0;
    while i < pairs.len()
        invariant
            i <= pairs.len(),
            views == pair_views(pairs@),
            views == config@.github.column_mapping,
            valid_log_level(config@.log_level),
            valid_output_format(config@.output_format),
            valid_sync_mode(config@.github.sync_mode),
            !(needs_projects(config@.github.sync_mode) && config@.github.project_ids.len() == 0),
            mapping_fault(views.take(i as int)) is None,
        decreases pairs.len() - i,
    {
        let ghost prefix = views.take(i as int + 1);
        assert(prefix.drop_last() =~= views.take(i as int));
        assert(prefix.last() == (pairs@[i as int].0@, pairs@[i as int].1@));
        let name = pairs[i].0.as_str();
        let status = pairs[i].1.as_str();
        if name.unicode_len() == 0 || status.unicode_len() == 0 {
            let mut detail = name.to_owned();
            detail.append("=");
            detail.append(status);
            proof {
                lemma_mapping_fault_found(views, i as int);
                assert(detail@ =~= views[i as int].0 + "="@ + views[i as int].1);
                assert("Invalid column_mapping entry: "@ + detail@
                    =~= "Invalid column_mapping entry: "@
                    + views[i as int].0 + "="@ + views[i as int].1);
            }
            return Err(config_error("Invalid column_mapping entry: ", detail.as_str()));
        }
        i = i + 1;
    }
    assert(views.take(pairs.len() as int) =~= views);
    Ok(())
}

/// The fault of a mapping is that of its first faulty pair.
pub proof fn lemma_mapping_fault_found(m: Seq<(Seq<char>, Seq<char>)>, i: int)
    requires
        0 <= i < m.len(),
        mapping_fault(m.take(i)) is None,
        m[i].0.len() == 0 || m[i].1.len() == 0,
    ensures
        mapping_fault(m) == Some("Invalid column_mapping entry: "@ + m[i].0 + "="@ + m[i].1),
    decreases m.len() - i,
{
    let prefix = m.take(i + 1);
    assert(prefix.drop_last() =~= m.take(i));
    assert(prefix.last() == m[i]);
    lemma_mapping_fault_kept(m, i + 1);
}

/// A fault found in a prefix of a mapping is the fault of the mapping.
pub proof fn lemma_mapping_fault_kept(m: Seq<(Seq<char>, Seq<char>)>, k: int)
    requires
        0 <= k <= m.len(),
        mapping_fault(m.take(k)) is Some,
    ensures
        mapping_fault(m) == mapping_fault(m.take(k)),
    decreases m.len() - k,
{
    if k == m.len() {
        assert(m.take(k) =~= m);
    } else {
        let next = m.take(k + 1);
        assert(next.drop_last() =~= m.take(k));
        lemma_mapping_fault_kept(m, k + 1);
    }
}

} // verus!
