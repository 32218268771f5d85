//! The daemon's configuration, and the check that only the physical relay is
//! asked for. Reading the file is the host's part.
use vstd::prelude::*;

verus! {

#[derive(Debug, Clone)]
pub struct Config {
    pub general: GeneralConfig,
    pub input: InputConfig,
    pub corrector: CorrectorConfig,
    pub chatter: ChatterConfig,
    pub snippets: SnippetsConfig,
    pub typography: TypographyConfig,
}

#[derive(Debug, Clone)]
pub struct GeneralConfig {
    pub log_level: String,
    pub pid_file: String,
}

#[derive(Debug, Clone)]
pub struct InputConfig {
    pub discovery: String,
    pub device_paths: Vec<String>,
    pub exclude_names: Vec<String>,
}

#[derive(Debug, Clone)]
pub struct CorrectorConfig {
    pub enabled: bool,
    pub min_word_length: usize,
    pub layouts: Vec<String>,
    pub dict_dir: String,
    pub exclude_classes: Vec<String>,
    pub exclude_titles: Vec<String>,
    pub double_shift_corrects: bool,
    pub double_shift_window_ms: u64,
}

#[derive(Debug, Clone)]
pub struct ChatterConfig {
    pub enabled: bool,
    pub debounce_ms: u64,
    pub modifier_debounce_ms: u64,
}

/// Snippet settings; `entries` maps a trigger to its replacement, in the order
/// the configuration file yields them.
#[derive(Debug, Clone)]
pub struct SnippetsConfig {
    pub enabled: bool,
    pub trigger_prefix: String,
    pub word_separators: Vec<String>,
    pub entries: Vec<(String, String)>,
}

#[derive(Debug, Clone)]
pub struct TypographyConfig {
    pub enabled: bool,
    pub smart_quotes: bool,
    pub em_dash: bool,
}

/// The names of the enabled features that the relay cannot provide, in the
/// order chatter, corrector, snippets, typography.
pub open spec fn unavailable_features(c: Config) -> Seq<Seq<char>> {
    let a: Seq<Seq<char>> = if c.chatter.enabled { seq!["chatter"@] } else { Seq::empty() };
    let b: Seq<Seq<char>> = if c.corrector.enabled { seq!["corrector"@] } else { Seq::empty() };
    let d: Seq<Seq<char>> = if c.snippets.enabled { seq!["snippets"@] } else { Seq::empty() };
    let e: Seq<Seq<char>> = if c.typography.enabled { seq!["typography"@] } else { Seq::empty() };
    a + b + d + e
}

/// The names joined by `, `.
pub open spec fn joined(names: Seq<Seq<char>>) -> Seq<char>
    decreases names.len(),
{
    if names.len() == 0 {
        Seq::empty()
    } else if names.len() == 1 {
        names[0]
    } else {
        joined(names.drop_last()) + ", "@ + names.last()
    }
}

pub open spec fn relay_config_error(c: Config) -> Option<Seq<char>> {
    let missing = unavailable_features(c);
    if missing.len() > 0 {
        Some(
            "unavailable backends: "@ + joined(missing)
                + ". Only physical relay is currently supported; explicitly disable these features to test it"@,
        )
    } else if c.input.discovery@ != "manual"@ || c.input.device_paths@.len() == 0 {
        Some(
            "physical relay requires input.discovery=manual and explicit device_paths; automatic grab is disabled"@,
        )
    } else {
        None
    }
}

/// Refuses a configuration that enables a feature the relay cannot provide,
/// or that does not name the devices to grab explicitly.
pub fn validate_relay_config(config: &Config) -> (r: Result<(), String>)
    ensures
        match relay_config_error(*config) {
            Some(m) => r matches Err(e) && e@ == m,
            Option::None => r is Ok,
        },
{
    let mut names: Vec<&str> = Vec::new();
    if config.chatter.enabled {
        names.push("chatter");
    }
    if config.corrector.enabled {
        names.push("corrector");
    }
    if config.snippets.enabled {
        names.push("snippets");
    }
    if config.typography.enabled {
        names.push("typography");
    }
    let ghost want = unavailable_features(*config);
    assert(names@.map_values(|s: &str| s@) =~= want);
    if names.len() > 0 {
        let mut message = String::from_str("unavailable backends: ");
        let mut i: usize = 0;
        while i < names.len()
            invariant
                0 < names@.len(),
                i <= names@.len(),
                names@.map_values(|s: &str| s@) == want,
                i == 0 ==> message@ == "unavailable backends: "@,
                i > 0 ==> message@ == "unavailable backends: "@ + joined(want.take(i as int)),
            decreases names.len() - i,
        {
            if i > 0 {
                message.append(", ");
            }
            message.append(names[i]);
            proof {
                assert(want.take(i + 1).drop_last() =~= want.take(i as int));
                assert(want[i as int] == names@[i as int]@);
                if i == 0 {
                    assert(joined(want.take(1)) == want.take(1)[0]);
                }
            }
            i += 1;
        }
        assert(want.take(i as int) =~= want);
        message.append(". Only physical relay is currently supported; explicitly disable these features to test it");
        return Err(message);
    }
    if !crate::text::str_eq(config.input.discovery.as_str(), "manual") || config.input.device_paths.len() == 0 {
        return Err(
            String::from_str(
                "physical relay requires input.discovery=manual and explicit device_paths; automatic grab is disabled",
            ),
        );
    }
    Ok(())
}

} // verus!
