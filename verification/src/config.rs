//! The configuration that the index and the mover work from, and the checks
//! that a configuration has to pass before it is stored.

use vstd::prelude::*;
use crate::paths::{begins_with, components, lies_under, split_components};
use crate::text::{is_blank, is_blank_str, texts, trim, trimmed};
use crate::tier::{root_of, trimmed_root};

verus! {

/// Where the media server is reached.
#[derive(Debug, Clone)]
pub struct JellyfinConfig {
    pub url: String,
    pub api_key: String,
}

/// The two tier roots, the library roots to scan, and the media server.
#[derive(Debug, Clone)]
pub struct Config {
    pub hot_root: String,
    pub cold_root: String,
    pub library_paths: Vec<String>,
    pub jellyfin: JellyfinConfig,
}

impl Default for JellyfinConfig {
    fn default() -> (r: Self)
        ensures
            r.url@.len() == 0,
            r.api_key@.len() == 0,
    {
        JellyfinConfig { url: String::new(), api_key: String::new() }
    }
}

impl Default for Config {
    fn default() -> (r: Self)
        ensures
            r.hot_root@.len() == 0,
            r.cold_root@.len() == 0,
            r.library_paths@.len() == 0,
            r.jellyfin.url@.len() == 0,
            r.jellyfin.api_key@.len() == 0,
    {
        Config {
            hot_root: String::new(),
            cold_root: String::new(),
            library_paths: Vec::new(),
            jellyfin: JellyfinConfig::default(),
        }
    }
}

/// The file that holds the configuration.
#[derive(Debug, Clone)]
pub struct ConfigStore {
    path: String,
}

impl View for ConfigStore {
    type V = Seq<char>;

    closed spec fn view(&self) -> Seq<char> {
        self.path@
    }
}

impl ConfigStore {
    /// A store for the file at `path`.
    pub fn new(path: &str) -> (r: Self)
        ensures
            r@ == path@,
    {
        ConfigStore { path: path.to_owned() }
    }

    /// The file's path.
    pub fn path(&self) -> (r: &str)
        ensures
            r@ == self@,
    {
        self.path.as_str()
    }
}

/// Why a configuration was refused.
#[derive(Debug, Clone)]
pub struct ConfigValidationError {
    message: String,
}

impl View for ConfigValidationError {
    type V = Seq<char>;

    closed spec fn view(&self) -> Seq<char> {
        self.message@
    }
}

impl ConfigValidationError {
    /// A refusal with the given words.
    pub fn new(message: &str) -> (r: Self)
        ensures
            r@ == message@,
    {
        ConfigValidationError { message: message.to_owned() }
    }

    /// The refusal's words.
    pub fn to_string(&self) -> (r: String)
        ensures
            r@ == self@,
    {
        self.message.clone()
    }
}

/// What a look at a path on disk found.
#[derive(Debug, Clone)]
pub enum DirProbe {
    /// The path is a directory.
    Directory,
    /// The path exists and is something else.
    NotDirectory,
    /// Nothing is at the path.
    Missing,
    /// The look failed, with the system's words.
    Unreadable(String),
}

/// The looks that a configuration's check rests on: one for each root and
/// one for each library path, in order.
#[derive(Debug, Clone)]
pub struct ConfigProbes {
    pub hot_root: DirProbe,
    pub cold_root: DirProbe,
    pub library_paths: Vec<DirProbe>,
}

/// Names what `url::Url::parse` makes of a text: nothing where the text is
/// an absolute URL, else the words of the error.
pub uninterp spec fn url_complaint(text: Seq<char>) -> Option<Seq<char>>;

/// The views of an optional string.
pub open spec fn opt_text(s: Option<String>) -> Option<Seq<char>> {
    match s {
        Some(t) => Some(t@),
        None => None,
    }
}

/// Whether both tier roots are set.
pub open spec fn is_ready(config: Config) -> bool {
    !is_blank(config.hot_root@) && !is_blank(config.cold_root@)
}

/// What is wrong with the directory at `path`, if anything.
pub open spec fn directory_complaint(path: Seq<char>, label: Seq<char>, probe: DirProbe) -> Option<
    Seq<char>,
> {
    match probe {
        DirProbe::Directory => None,
        DirProbe::NotDirectory => Some(label + " '"@ + path + "' is not a directory"@),
        DirProbe::Missing => Some(label + " '"@ + path + "' does not exist"@),
        DirProbe::Unreadable(err) => Some(
            "Failed to inspect "@ + label + " '"@ + path + "': "@ + err@,
        ),
    }
}

/// What is wrong with a root setting, if anything: a blank one is in order.
pub open spec fn root_complaint(setting: Seq<char>, label: Seq<char>, probe: DirProbe) -> Option<
    Seq<char>,
> {
    if is_blank(setting) {
        None
    } else {
        directory_complaint(trimmed(setting), label, probe)
    }
}

/// What is wrong with the first library path that is out of order, from
/// index `from` on.
pub open spec fn library_complaint(paths: Seq<Seq<char>>, probes: Seq<DirProbe>, from: int) -> Option<
    Seq<char>,
>
    decreases paths.len() - from,
{
    if from >= paths.len() || from < 0 {
        None
    } else if is_blank(paths[from]) {
        Some("library_paths entries must be non-empty paths"@)
    } else {
        match directory_complaint(trimmed(paths[from]), "library path"@, probes[from]) {
            Some(m) => Some(m),
            None => library_complaint(paths, probes, from + 1),
        }
    }
}

/// What is wrong with the two roots taken together, if anything.
pub open spec fn roots_complaint(hot: Seq<char>, cold: Seq<char>) -> Option<Seq<char>> {
    match (root_of(hot), root_of(cold)) {
        (Some(h), Some(c)) => {
            if components(h) == components(c) {
                Some("hot_root and cold_root cannot be the same directory"@)
            } else if lies_under(h, c) || lies_under(c, h) {
                Some("hot_root and cold_root cannot be nested inside each other"@)
            } else {
                None
            }
        },
        _ => None,
    }
}

/// What is wrong with the media server's address, given what the URL parser
/// made of it.
pub open spec fn address_complaint(url: Seq<char>, parsed: Option<Seq<char>>) -> Option<
    Seq<char>,
> {
    match parsed {
        Some(err) if !is_blank(url) => Some(
            "Invalid Jellyfin URL '"@ + trimmed(url) + "': "@ + err,
        ),
        _ => None,
    }
}

/// The first thing that is wrong with a configuration, if anything.
pub open spec fn config_complaint(config: Config, probes: ConfigProbes) -> Option<Seq<char>> {
    let hot = root_complaint(config.hot_root@, "hot_root path"@, probes.hot_root);
    let cold = root_complaint(config.cold_root@, "cold_root path"@, probes.cold_root);
    let libs = library_complaint(texts(config.library_paths@), probes.library_paths@, 0);
    let roots = roots_complaint(config.hot_root@, config.cold_root@);
    if hot is Some {
        hot
    } else if cold is Some {
        cold
    } else if libs is Some {
        libs
    } else if roots is Some {
        roots
    } else {
        address_complaint(config.jellyfin.url@, url_complaint(trimmed(config.jellyfin.url@)))
    }
}

/// Whether both tier roots are set.
pub fn config_is_ready(config: &Config) -> (r: bool)
    ensures
        r == is_ready(*config),
{
    let hot_ready = !is_blank_str(config.hot_root.as_str());
    let cold_ready = !is_blank_str(config.cold_root.as_str());
    hot_ready && cold_ready
}

/// Asks the URL parser about `text`.
///
/// Trusted: calls `url::Url::parse`. The contract only names the outcome: no
/// error for a text that parses, else the error's own words.
#[verifier::external_body]
fn parse_url(text: &str) -> (r: Option<String>)
    ensures
        opt_text(r) == url_complaint(text@),
{
    match url::Url::parse(text) {
        Ok(_) => None,
        Err(err) => Some(err.to_string()),
    }
}

/// `a`, `b`, `c`, `d` and `e` written one after the other.
fn concat5(a: &str, b: &str, c: &str, d: &str, e: &str) -> (r: String)
    ensures
        r@ == a@ + b@ + c@ + d@ + e@,
{
    let mut out = a.to_owned();
    out.append(b);
    out.append(c);
    out.append(d);
    out.append(e);
    out
}

/// Accepts the directory at `path`, or says what is wrong with it.
pub fn ensure_directory(path: &str, label: &str, probe: &DirProbe) -> (r: Result<
    (),
    ConfigValidationError,
>)
    ensures
        r is Ok <==> directory_complaint(path@, label@, *probe) is None,
        r matches Err(e) ==> Some(e@) == directory_complaint(path@, label@, *probe),
{
    match probe {
        DirProbe::Directory => Ok(()),
        DirProbe::NotDirectory => {
            let m = concat5(label, " '", path, "' is not a directory", "");
            assert(m@ =~= label@ + " '"@ + path@ + "' is not a directory"@) by {
                reveal_strlit("");
            }
            Err(ConfigValidationError { message: m })
        },
        DirProbe::Missing => {
            let m = concat5(label, " '", path, "' does not exist", "");
            assert(m@ =~= label@ + " '"@ + path@ + "' does not exist"@) by {
                reveal_strlit("");
            }
            Err(ConfigValidationError { message: m })
        },
        DirProbe::Unreadable(err) => {
            let mut m = concat5("Failed to inspect ", label, " '", path, "': ");
            m.append(err.as_str());
            Err(ConfigValidationError { message: m })
        },
    }
}

/// The root that a setting names, once its directory is found in order.
pub fn validate_root_path(field: &str, value: &str, probe: &DirProbe) -> (r: Result<
    Option<String>,
    ConfigValidationError,
>)
    ensures
        r is Ok <==> root_complaint(value@, field@ + " path"@, *probe) is None,
        r matches Ok(root) ==> opt_text(root) == root_of(value@),
        r matches Err(e) ==> Some(e@) == root_complaint(value@, field@ + " path"@, *probe),
{
    match trimmed_root(value) {
        None => Ok(None),
        Some(path) => {
            let mut label = field.to_owned();
            label.append(" path");
            match ensure_directory(path.as_str(), label.as_str(), probe) {
                Ok(()) => Ok(Some(path)),
                Err(e) => Err(e),
            }
        },
    }
}

/// Accepts the library paths, or says what is wrong with the first that is
/// out of order.
pub fn validate_library_paths(paths: &Vec<String>, probes: &Vec<DirProbe>) -> (r: Result<
    (),
    ConfigValidationError,
>)
    requires
        probes.len() == paths.len(),
    ensures
        r is Ok <==> library_complaint(texts(paths@), probes@, 0) is None,
        r matches Err(e) ==> Some(e@) == library_complaint(texts(paths@), probes@, 0),
{
    let mut i: usize = 0;
    while i < paths.len()
        invariant
            i <= paths.len(),
            probes.len() == paths.len(),
            library_complaint(texts(paths@), probes@, 0) == library_complaint(
                texts(paths@),
                probes@,
                i as int,
            ),
        decreases paths.len() - i,
    {
        let t = trim(paths[i].as_str());
        if t.unicode_len() == 0 {
            return Err(ConfigValidationError::new("library_paths entries must be non-empty paths"));
        }
        match ensure_directory(t, "library path", &probes[i]) {
            Ok(()) => {},
            Err(e) => {
                return Err(e);
            },
        }
        i = i + 1;
    }
    Ok(())
}

/// Accepts two roots that are apart, or says how they collide.
pub fn validate_roots_apart(hot: &Option<String>, cold: &Option<String>) -> (r: Result<
    (),
    ConfigValidationError,
>)
    ensures
        match (*hot, *cold) {
            (Some(h), Some(c)) => {
                if components(h@) == components(c@) {
                    r matches Err(e) && e@ == "hot_root and cold_root cannot be the same directory"@
                } else if lies_under(h@, c@) || lies_under(c@, h@) {
                    r matches Err(e) && e@
                        == "hot_root and cold_root cannot be nested inside each other"@
                } else {
                    r is Ok
                }
            },
            _ => r is Ok,
        },
{
    match (hot, cold) {
        (Some(h), Some(c)) => {
            let hc = split_components(h.as_str());
            let cc = split_components(c.as_str());
            let h_in_c = begins_with(&hc, &cc);
            let c_in_h = begins_with(&cc, &hc);
            if h_in_c && c_in_h {
                assert(components(h@) =~= components(c@));
                Err(ConfigValidationError::new("hot_root and cold_root cannot be the same directory"))
            } else if h_in_c || c_in_h {
                Err(
                    ConfigValidationError::new(
                        "hot_root and cold_root cannot be nested inside each other",
                    ),
                )
            } else {
                assert(components(h@) != components(c@)) by {
                    if components(h@) == components(c@) {
                        assert(components(c@).is_prefix_of(components(h@)));
                    }
                }
                Ok(())
            }
        },
        _ => Ok(()),
    }
}

/// Accepts the media server's address, given what the URL parser made of it,
/// or repeats the parser's complaint.
pub fn validate_address(url: &str, parsed: &Option<String>) -> (r: Result<
    (),
    ConfigValidationError,
>)
    ensures
        r is Ok <==> address_complaint(url@, opt_text(*parsed)) is None,
        r matches Err(e) ==> Some(e@) == address_complaint(url@, opt_text(*parsed)),
{
    let t = trim(url);
    if t.unicode_len() == 0 {
        return Ok(());
    }
    match parsed {
        None => Ok(()),
        Some(err) => {
            let m = concat5("Invalid Jellyfin URL '", t, "': ", err.as_str(), "");
            assert(m@ =~= "Invalid Jellyfin URL '"@ + trimmed(url@) + "': "@ + err@) by {
                reveal_strlit("");
            }
            Err(ConfigValidationError { message: m })
        },
    }
}

/// Accepts a configuration, or says what is wrong with it first: a root, a
/// library path, the two roots together, or the media server's address.
pub fn validate_config(config: &Config, probes: &ConfigProbes) -> (r: Result<
    (),
    ConfigValidationError,
>)
    requires
        probes.library_paths.len() == config.library_paths.len(),
    ensures
        r is Ok <==> config_complaint(*config, *probes) is None,
        r matches Err(e) ==> Some(e@) == config_complaint(*config, *probes),
{
    proof {
        assert("hot_root"@ + " path"@ =~= "hot_root path"@) by {
            reveal_strlit("hot_root");
            reveal_strlit(" path");
            reveal_strlit("hot_root path");
        }
    }
    let hot = match validate_root_path("hot_root", config.hot_root.as_str(), &probes.hot_root) {
        Ok(root) => root,
        Err(e) => {
            return Err(e);
        },
    };
    proof {
        assert("cold_root"@ + " path"@ =~= "cold_root path"@) by {
            reveal_strlit("cold_root");
            reveal_strlit(" path");
            reveal_strlit("cold_root path");
        }
    }
    let cold = match validate_root_path("cold_root", config.cold_root.as_str(), &probes.cold_root) {
        Ok(root) => root,
        Err(e) => {
            return Err(e);
        },
    };
    match validate_library_paths(&config.library_paths, &probes.library_paths) {
        Ok(()) => {},
        Err(e) => {
            return Err(e);
        },
    }
    match validate_roots_apart(&hot, &cold) {
        Ok(()) => {},
        Err(e) => {
            return Err(e);
        },
    }
    let address = trim(config.jellyfin.url.as_str());
    if address.unicode_len() == 0 {
        return Ok(());
    }
    let parsed = parse_url(address);
    validate_address(config.jellyfin.url.as_str(), &parsed)
}

} // verus!
