//! Repository configuration: sections of keys and values, and the settings
//! that a repository of the supported format must carry.

use crate::error::{ConfigFault, ConfigFaultModel, Error, ErrorModel};
use vstd::prelude::*;

verus! {

/// One section of a configuration: its name, or none for the entries that
/// stand before the first header, and its entries in order.
#[derive(Clone, Debug, PartialEq, Eq)]
pub struct Section {
    pub name: Option<String>,
    pub entries: Vec<(String, String)>,
}

/// The mathematical value of a [`Section`].
pub struct SectionModel {
    pub name: Option<Seq<char>>,
    pub entries: Seq<(Seq<char>, Seq<char>)>,
}

impl View for Section {
    type V = SectionModel;

    open spec fn view(&self) -> SectionModel {
        SectionModel {
            name: match self.name {
                Some(name) => Some(name@),
                None => None,
            },
            entries: Seq::new(
                self.entries@.len(),
                |i: int| (self.entries@[i].0@, self.entries@[i].1@),
            ),
        }
    }
}

/// A configuration: its sections in order.
#[derive(Clone, Debug, PartialEq, Eq)]
pub struct Config {
    pub sections: Vec<Section>,
}

impl View for Config {
    type V = Seq<SectionModel>;

    open spec fn view(&self) -> Seq<SectionModel> {
        Seq::new(self.sections@.len(), |i: int| self.sections@[i]@)
    }
}

/// The section that every check looks into.
pub open spec fn core_section() -> Seq<char> {
    "core"@
}

/// The first section at or after `from` that bears `name`.
pub open spec fn section_from(config: Seq<SectionModel>, name: Seq<char>, from: int) -> Option<
    SectionModel,
>
    decreases config.len() - from,
{
    if from < 0 || from >= config.len() {
        None
    } else if config[from].name == Some(name) {
        Some(config[from])
    } else {
        section_from(config, name, from + 1)
    }
}

/// The value of the first entry at or after `from` whose key is `key`.
pub open spec fn value_from(entries: Seq<(Seq<char>, Seq<char>)>, key: Seq<char>, from: int)
    -> Option<Seq<char>>
    decreases entries.len() - from,
{
    if from < 0 || from >= entries.len() {
        None
    } else if entries[from].0 == key {
        Some(entries[from].1)
    } else {
        value_from(entries, key, from + 1)
    }
}

/// What a look at one key of the `core` section finds: the section must be
/// there, the key must be in it, and its value must be `expected` to the
/// letter.
pub open spec fn key_verdict(config: Seq<SectionModel>, key: Seq<char>, expected: Seq<char>)
    -> Result<(), ErrorModel> {
    match section_from(config, core_section(), 0) {
        None => Err(
            ErrorModel::ConfigError {
                fault: ConfigFaultModel::MissingSection { section: core_section() },
            },
        ),
        Some(section) => match value_from(section.entries, key, 0) {
            None => Err(
                ErrorModel::ConfigError {
                    fault: ConfigFaultModel::MissingKey { section: core_section(), key },
                },
            ),
            Some(actual) => if actual == expected {
                Ok(())
            } else {
                Err(
                    ErrorModel::ConfigError {
                        fault: ConfigFaultModel::UnexpectedValue { key, expected, actual },
                    },
                )
            },
        },
    }
}

impl Config {
    /// The first section that bears `name`.
    pub fn section(&self, name: &str) -> (found: Option<&Section>)
        ensures
            match found {
                Some(section) => section_from(self@, name@, 0) == Some(section@),
                None => section_from(self@, name@, 0) is None,
            },
    {
        let wanted = String::from_str(name);
        let mut i: usize = 0;
        while i < self.sections.len()
            invariant
                wanted@ == name@,
                section_from(self@, name@, 0) == section_from(self@, name@, i as int),
            decreases self.sections.len() - i,
        {
            let section = &self.sections[i];
            let hit = match &section.name {
                Some(name) => *name == wanted,
                None => false,
            };
            if hit {
                return Some(section);
            }
            i += 1;
        }
        None
    }
}

impl Section {
    /// The value of the first entry whose key is `key`.
    pub fn get(&self, key: &str) -> (found: Option<&String>)
        ensures
            match found {
                Some(value) => value_from(self@.entries, key@, 0) == Some(value@),
                None => value_from(self@.entries, key@, 0) is None,
            },
    {
        let wanted = String::from_str(key);
        let mut i: usize = 0;
        while i < self.entries.len()
            invariant
                wanted@ == key@,
                value_from(self@.entries, key@, 0) == value_from(self@.entries, key@, i as int),
            decreases self.entries.len() - i,
        {
            if self.entries[i].0 == wanted {
                return Some(&self.entries[i].1);
            }
            i += 1;
        }
        None
    }
}

/// Checks that `key` of the `core` section holds `expected_value`.
pub fn check_config_key(config: &Config, key: &str, expected_value: &str) -> (verdict: Result<
    (),
    Error,
>)
    ensures
        match verdict {
            Ok(_) => key_verdict(config@, key@, expected_value@) is Ok,
            Err(error) => key_verdict(config@, key@, expected_value@) == Err::<(), ErrorModel>(
                error@,
            ),
        },
{
    let section = match config.section("core") {
        Some(section) => section,
        None => {
            return Err(
                Error::ConfigError {
                    fault: ConfigFault::MissingSection { section: String::from_str("core") },
                },
            );
        },
    };
    let value = match section.get(key) {
        Some(value) => value,
        None => {
            return Err(
                Error::ConfigError {
                    fault: ConfigFault::MissingKey {
                        section: String::from_str("core"),
                        key: String::from_str(key),
                    },
                },
            );
        },
    };
    let expected = String::from_str(expected_value);
    if *value == expected {
        Ok(())
    } else {
        Err(
            Error::ConfigError {
                fault: ConfigFault::UnexpectedValue {
                    key: String::from_str(key),
                    expected,
                    actual: value.clone(),
                },
            },
        )
    }
}

/// The settings of a repository of the supported format, with the value
/// that each must hold, in the order in which they are checked.
pub open spec fn required_settings() -> Seq<(Seq<char>, Seq<char>)> {
    seq![
        ("repositoryformatversion"@, "0"@),
        ("filemode"@, "false"@),
        ("bare"@, "false"@),
    ]
}

/// The configuration that a new repository is given.
pub open spec fn initial_config() -> Seq<SectionModel> {
    seq![SectionModel { name: Some(core_section()), entries: required_settings() }]
}

/// What checking the first `count` required settings in order finds: the
/// fault of the first one that fails.
pub open spec fn settings_verdict_upto(config: Seq<SectionModel>, count: int) -> Result<
    (),
    ErrorModel,
>
    decreases count,
{
    if count <= 0 || count > required_settings().len() {
        Ok(())
    } else {
        match settings_verdict_upto(config, count - 1) {
            Err(error) => Err(error),
            Ok(_) => key_verdict(
                config,
                required_settings()[count - 1].0,
                required_settings()[count - 1].1,
            ),
        }
    }
}

/// What checking all required settings finds.
pub open spec fn settings_verdict(config: Seq<SectionModel>) -> Result<(), ErrorModel> {
    settings_verdict_upto(config, required_settings().len() as int)
}

/// `text` without the byte order mark at its start, if it has one.
pub open spec fn without_bom(text: Seq<u8>) -> Seq<u8> {
    if text.len() >= 3 && text[0] == 0xEF && text[1] == 0xBB && text[2] == 0xBF {
        text.skip(3)
    } else {
        text
    }
}

/// The configuration that the bytes of a configuration file hold, or the
/// reader's account of why they hold none.
pub open spec fn parsed(text: Seq<u8>) -> Result<Seq<SectionModel>, Seq<char>> {
    ini_read(without_bom(text))
}

/// What `ini::Ini::read_from` gives for a text: the sections it reads, with
/// their entries, in the order in which the document lists them, or the
/// text of its error.
pub uninterp spec fn ini_read(text: Seq<u8>) -> Result<Seq<SectionModel>, Seq<char>>;

/// What `ini::Ini::write_to_opt` writes for a document to which the
/// entries of `config` were added one by one in order, each under the name
/// of its section, with basic escaping, `\n` between lines and `=` between
/// key and value.
pub uninterp spec fn ini_write(config: Seq<SectionModel>) -> Seq<u8>;

/// Calls `ini::Ini::read_from` on the text and copies out the sections and
/// entries of the document in iteration order. The result is taken to
/// depend on the text alone; an error is handed on as the text that the
/// reader displays for it.
#[verifier::external_body]
fn read_ini(text: &[u8]) -> (document: Result<Config, String>)
    ensures
        match document {
            Ok(config) => ini_read(text@) == Ok::<Seq<SectionModel>, Seq<char>>(config@),
            Err(why) => ini_read(text@) == Err::<Seq<SectionModel>, Seq<char>>(why@),
        },
{
    let mut reader = text;
    let document = ini::Ini::read_from(&mut reader).map_err(|e| e.to_string())?;
    let sections = document.iter().map(|(name, entries)| Section {
        name: name.map(String::from),
        entries: entries.iter().map(|(k, v)| (k.to_string(), v.to_string())).collect(),
    });
    Ok(Config { sections: sections.collect() })
}

/// Builds an `ini::Ini` by `with_section` and `add`, one call for each
/// entry of the configuration in order, and calls `ini::Ini::write_to_opt`
/// on it. The result is taken to depend on the configuration alone.
#[verifier::external_body]
fn write_ini(config: &Config) -> (text: Vec<u8>)
    ensures
        text@ == ini_write(config@),
{
    let mut document = ini::Ini::new();
    for part in config.sections.iter() {
        for (key, value) in part.entries.iter() {
            document.with_section(part.name.clone()).add(key.clone(), value.clone());
        }
    }
    let mut text = Vec::new();
    let style = ini::WriteOption {
        escape_policy: ini::EscapePolicy::Basics,
        line_separator: ini::LineSeparator::CR,
        kv_separator: "=",
    };
    let _ = document.write_to_opt(&mut text, style);
    text
}

impl Config {
    /// Reads a configuration from the bytes of a configuration file.
    pub fn parse(text: &[u8]) -> (document: Result<Config, String>)
        ensures
            match document {
                Ok(config) => parsed(text@) == Ok::<Seq<SectionModel>, Seq<char>>(config@),
                Err(why) => parsed(text@) == Err::<Seq<SectionModel>, Seq<char>>(why@),
            },
    {
        if text.len() >= 3 && text[0] == 0xEF && text[1] == 0xBB && text[2] == 0xBF {
            assert(text@.subrange(3, text@.len() as int) =~= text@.skip(3));
            read_ini(&text[3..text.len()])
        } else {
            read_ini(text)
        }
    }

    /// The bytes of the configuration file that holds this configuration,
    /// as the writer of the `ini` crate sets them down. Every entry is
    /// written; a section without entries is not, and sections of one name
    /// are written as one.
    pub fn render(&self) -> (text: Vec<u8>)
        ensures
            text@ == ini_write(self@),
    {
        write_ini(self)
    }

    /// The configuration of a new repository.
    pub fn initial() -> (config: Config)
        ensures
            config@ == initial_config(),
    {
        let mut entries: Vec<(String, String)> = Vec::new();
        entries.push((String::from_str("repositoryformatversion"), String::from_str("0")));
        entries.push((String::from_str("filemode"), String::from_str("false")));
        entries.push((String::from_str("bare"), String::from_str("false")));
        let section = Section { name: Some(String::from_str("core")), entries };
        assert(section@.entries =~= required_settings());
        let mut sections: Vec<Section> = Vec::new();
        sections.push(section);
        let config = Config { sections };
        assert(config@ =~= initial_config());
        config
    }

    /// Checks the required settings in order and reports the first that
    /// fails.
    pub fn check_settings(&self) -> (verdict: Result<(), Error>)
        ensures
            match verdict {
                Ok(_) => settings_verdict(self@) is Ok,
                Err(error) => settings_verdict(self@) == Err::<(), ErrorModel>(error@),
            },
    {
        reveal_with_fuel(settings_verdict_upto, 4);
        check_config_key(self, "repositoryformatversion", "0")?;
        check_config_key(self, "filemode", "false")?;
        check_config_key(self, "bare", "false")?;
        Ok(())
    }
}

/// The configuration of a new repository passes every check, provided it
/// is read back as it was written.
pub proof fn lemma_initial_config_is_valid()
    ensures
        settings_verdict(initial_config()) is Ok,
{
    reveal_with_fuel(settings_verdict_upto, 4);
    reveal_with_fuel(value_from, 4);
    reveal_strlit("repositoryformatversion");
    reveal_strlit("filemode");
    reveal_strlit("bare");
    let version = "repositoryformatversion"@;
    let filemode = "filemode"@;
    let bare = "bare"@;
    assert(version.len() == 23 && filemode.len() == 8 && bare.len() == 4);
    let config = initial_config();
    assert(section_from(config, core_section(), 0) == Some(config[0]));
    let entries = config[0].entries;
    assert(value_from(entries, version, 0) == Some("0"@));
    assert(value_from(entries, filemode, 0) == Some("false"@));
    assert(value_from(entries, bare, 0) == Some("false"@));
}

/// The settings pass exactly when the first `core` section holds each
/// required key with its required value.
pub proof fn lemma_settings_pass_iff(config: Seq<SectionModel>)
    ensures
        settings_verdict(config) is Ok <==> (section_from(config, core_section(), 0) matches Some(
            section,
        ) && forall|i: int|
            0 <= i < required_settings().len() ==> value_from(
                section.entries,
                #[trigger] required_settings()[i].0,
                0,
            ) == Some(required_settings()[i].1)),
{
    reveal_with_fuel(settings_verdict_upto, 4);
    let required = required_settings();
    if let Some(section) = section_from(config, core_section(), 0) {
        assert(key_verdict(config, required[0].0, required[0].1) is Ok <==> value_from(
            section.entries,
            required[0].0,
            0,
        ) == Some(required[0].1));
        assert(key_verdict(config, required[1].0, required[1].1) is Ok <==> value_from(
            section.entries,
            required[1].0,
            0,
        ) == Some(required[1].1));
        assert(key_verdict(config, required[2].0, required[2].1) is Ok <==> value_from(
            section.entries,
            required[2].0,
            0,
        ) == Some(required[2].1));
    }
}

/// A format version other than `0` is refused, with the key, the value
/// required and the value found.
pub proof fn lemma_other_version_is_refused(config: Seq<SectionModel>, found: Seq<char>)
    requires
        section_from(config, core_section(), 0) matches Some(section) && value_from(
            section.entries,
            "repositoryformatversion"@,
            0,
        ) == Some(found),
        found != "0"@,
    ensures
        settings_verdict(config) == Err::<(), ErrorModel>(
            ErrorModel::ConfigError {
                fault: ConfigFaultModel::UnexpectedValue {
                    key: "repositoryformatversion"@,
                    expected: "0"@,
                    actual: found,
                },
            },
        ),
{
    reveal_with_fuel(settings_verdict_upto, 4);
}

} // verus!
