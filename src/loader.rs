//! Serves the engine's module requests from an in-memory archive.
use vstd::prelude::*;
use crate::archive::{Archive, ModuleKind};
use vstd::string::StrSliceExecFns;
use vstd::utf8::{decode_utf8, valid_utf8};

verus! {

/// The absolute URL that `specifier` names relative to `base`, or `None`
/// when either does not parse.
pub uninterp spec fn joined_url(base: Seq<char>, specifier: Seq<char>) -> Option<Seq<char>>;

/// The serialisation of `s` read as an absolute URL, or `None` when it does
/// not parse.
pub uninterp spec fn parsed_url(s: Seq<char>) -> Option<Seq<char>>;

/// The scheme of `s` read as an absolute URL, or `None` when it does not
/// parse.
pub uninterp spec fn url_scheme(s: Seq<char>) -> Option<Seq<char>>;

/// `s` is a path relative to its base: it starts with `/`, `./` or `../`.
pub open spec fn has_path_prefix(s: Seq<char>) -> bool {
    ||| s.len() >= 1 && s[0] == '/'
    ||| s.len() >= 2 && s[0] == '.' && s[1] == '/'
    ||| s.len() >= 3 && s[0] == '.' && s[1] == '.' && s[2] == '/'
}

/// Relies on `url::Url::parse` and `url::Url::join`: `base` is parsed as an
/// absolute URL and `specifier` resolved against it; the result is its
/// serialisation, a function of the two strings alone.
#[verifier::external_body]
fn join_url(base: &str, specifier: &str) -> (r: Option<String>)
    ensures
        match r {
            Some(s) => joined_url(base@, specifier@) == Some(s@),
            None => joined_url(base@, specifier@) is None,
        },
{
    url::Url::parse(base).and_then(|b| b.join(specifier)).ok().map(|u| u.to_string())
}

/// Relies on `url::Url::parse`, with `Url::as_str` and `Url::scheme` read from
/// the result: the serialisation and scheme of an absolute URL, functions of
/// the string alone.
#[verifier::external_body]
fn parse_url(s: &str) -> (r: Option<(String, String)>)
    ensures
        match r {
            Some((u, scheme)) => parsed_url(s@) == Some(u@) && url_scheme(s@) == Some(scheme@),
            None => parsed_url(s@) is None && url_scheme(s@) is None,
        },
{
    url::Url::parse(s).ok().map(|u| (u.as_str().to_string(), u.scheme().to_string()))
}

/// Relies on `String::from_utf8`: the text that the bytes spell, or an error
/// when they are not valid UTF-8.
#[verifier::external_body]
fn text_from_utf8(b: &[u8]) -> (r: Option<String>)
    ensures
        r is Some <==> valid_utf8(b@),
        r matches Some(s) ==> s@ == decode_utf8(b@),
{
    String::from_utf8(b.to_vec()).ok()
}

fn has_path_prefix_exec(s: &str) -> (r: bool)
    ensures
        r == has_path_prefix(s@),
{
    let n = s.unicode_len();
    if n >= 1 && s.get_char(0) == '/' {
        return true;
    }
    if n >= 2 && s.get_char(0) == '.' && s.get_char(1) == '/' {
        return true;
    }
    n >= 3 && s.get_char(0) == '.' && s.get_char(1) == '.' && s.get_char(2) == '/'
}

/// Why a module could not be resolved or loaded.
#[derive(Debug, Clone, Copy, PartialEq, Eq, Structural)]
pub enum LoadError {
    /// The specifier is neither an absolute URL nor a path starting with
    /// `/`, `./` or `../`, or it cannot be joined onto its base.
    InvalidSpecifier,
    /// No module of the archive has that specifier.
    ModuleNotFound,
    /// The module's source is not valid UTF-8.
    NotUtf8,
    /// Dynamic imports are never served: packaging does not follow them.
    DynamicImport,
}

/// A loaded module as the engine receives it.
#[derive(Debug)]
pub struct ModuleSource {
    pub code: String,
    pub module_type: ModuleKind,
    pub module_url_specified: String,
    pub module_url_found: String,
}

/// The outcome of resolving `specifier` against `base`: an absolute URL as
/// it stands; a path starting with `/`, `./` or `../` joined onto the base;
/// anything else, a bare name, refused.
pub open spec fn resolution(specifier: Seq<char>, base: Seq<char>) -> Option<Seq<char>> {
    match parsed_url(specifier) {
        Some(u) => Some(u),
        None => if has_path_prefix(specifier) { joined_url(base, specifier) } else { None },
    }
}

/// Resolves `specifier` against `base`.
pub fn resolve_import(specifier: &str, base: &str) -> (r: Result<String, LoadError>)
    ensures
        match resolution(specifier@, base@) {
            Some(u) => r matches Ok(s) && s@ == u,
            None => r == Err::<String, LoadError>(LoadError::InvalidSpecifier),
        },
{
    match parse_url(specifier) {
        Some((u, _)) => Ok(u),
        None => {
            if !has_path_prefix_exec(specifier) {
                return Err(LoadError::InvalidSpecifier);
            }
            match join_url(base, specifier) {
                Some(s) => Ok(s),
                None => Err(LoadError::InvalidSpecifier),
            }
        },
    }
}

/// How a module found while packaging is to be fetched.
#[derive(Debug, Clone, PartialEq, Eq)]
pub enum LoadPlan {
    /// A dynamic import: left out of the packaged graph.
    Skip,
    /// An inline `data:` URL.
    DataUrl,
    /// A local file.
    File,
    /// Any other scheme: packaging fails.
    Unsupported(String),
}

/// Decides how the packager fetches `specifier`. Dynamic imports are never
/// followed; only `data` and `file` URLs are read.
pub fn plan_load(specifier: &str, is_dynamic: bool) -> (r: Result<LoadPlan, LoadError>)
    ensures
        is_dynamic ==> r == Ok::<LoadPlan, LoadError>(LoadPlan::Skip),
        !is_dynamic ==> match url_scheme(specifier@) {
            None => r == Err::<LoadPlan, LoadError>(LoadError::InvalidSpecifier),
            Some(s) => if s == "data"@ {
                r == Ok::<LoadPlan, LoadError>(LoadPlan::DataUrl)
            } else if s == "file"@ {
                r == Ok::<LoadPlan, LoadError>(LoadPlan::File)
            } else {
                r matches Ok(LoadPlan::Unsupported(t)) && t@ == s
            },
        },
{
    if is_dynamic {
        return Ok(LoadPlan::Skip);
    }
    match parse_url(specifier) {
        None => Err(LoadError::InvalidSpecifier),
        Some((_, s)) => {
            let data = "data".to_owned();
            let file = "file".to_owned();
            proof {
                reveal_strlit("data");
                reveal_strlit("file");
            }
            if s == data {
                Ok(LoadPlan::DataUrl)
            } else if s == file {
                Ok(LoadPlan::File)
            } else {
                Ok(LoadPlan::Unsupported(s))
            }
        },
    }
}

/// The module source of an archive, read-only for the process lifetime.
pub struct EmbeddedModuleLoader {
    pub archive: Archive,
}

impl EmbeddedModuleLoader {
    pub open spec fn wf(&self) -> bool {
        self.archive.wf()
    }

    /// Resolves `specifier` against `base`; the archive is not consulted.
    pub fn resolve(&self, specifier: &str, base: &str) -> (r: Result<String, LoadError>)
        ensures
            match resolution(specifier@, base@) {
                Some(u) => r matches Ok(s) && s@ == u,
                None => r == Err::<String, LoadError>(LoadError::InvalidSpecifier),
            },
    {
        resolve_import(specifier, base)
    }

    /// The source and kind of the module under `specifier`.
    pub fn load(&self, specifier: &String, is_dynamic: bool) -> (r: Result<ModuleSource, LoadError>)
        requires
            self.wf(),
        ensures
            is_dynamic ==> r == Err::<ModuleSource, LoadError>(LoadError::DynamicImport),
            !is_dynamic && !self.archive@.contains_key(specifier@)
                ==> r == Err::<ModuleSource, LoadError>(LoadError::ModuleNotFound),
            !is_dynamic && self.archive@.contains_key(specifier@) ==> {
                let (kind, bytes) = self.archive@[specifier@];
                if valid_utf8(bytes) {
                    r matches Ok(m) && m.code@ == decode_utf8(bytes) && m.module_type == kind
                        && m.module_url_specified@ == specifier@ && m.module_url_found@ == specifier@
                } else {
                    r == Err::<ModuleSource, LoadError>(LoadError::NotUtf8)
                }
            },
    {
        if is_dynamic {
            return Err(LoadError::DynamicImport);
        }
        match self.archive.get_module(specifier) {
            None => Err(LoadError::ModuleNotFound),
            Some(m) => match text_from_utf8(m.source.as_slice()) {
                None => Err(LoadError::NotUtf8),
                Some(code) => Ok(ModuleSource {
                    code,
                    module_type: m.kind,
                    module_url_specified: specifier.clone(),
                    module_url_found: specifier.clone(),
                }),
            },
        }
    }
}

} // verus!
