use vstd::prelude::*;
use vstd::string::StrSliceExecFns;
use crate::state::KmgrState;
use crate::text::{str_eq, string_of, concat, to_lowercase, lowercase, trim, trimmed, is_alphanumeric, alphanumeric,
    replace_char, replace_char_spec, ends_with_char, starts_with_char, push_char};

verus! {

/// The mod loaders that setup accepts.
pub open spec fn supported_loader(l: Seq<char>) -> bool {
    l == "fabric"@ || l == "forge"@ || l == "neoforge"@ || l == "quilt"@
}

/// Why an answer to a setup question is refused.
#[derive(Debug)]
pub enum SetupError {
    /// No Minecraft version was given and none is configured.
    EmptyVersion,
    /// The Minecraft version holds a character other than letters, digits, `.`,
    /// `-`, `_`, or holds no digit.
    InvalidVersion(String),
    /// No mod loader was given and none is configured.
    EmptyLoader,
    /// The mod loader is not one of fabric, forge, neoforge, quilt.
    InvalidLoader(String),
    /// The mods folder holds one of `\0 * ? " < > |`.
    InvalidPathChars,
    /// Nothing of the mods folder is left once its trailing slashes are removed.
    EmptyPath,
}

/// The message shown for a refused setup answer.
pub open spec fn setup_message(e: SetupError) -> Seq<char> {
    match e {
        SetupError::EmptyVersion => "Version cannot be empty. Please enter a Minecraft version."@,
        SetupError::InvalidVersion(v) => "Invalid Minecraft version format ("@ + v@
            + "). Standard format is major.minor[.patch] (e.g., 1.20.1)."@,
        SetupError::EmptyLoader => "Mod loader cannot be empty. Supported loaders: fabric, forge, neoforge, quilt."@,
        SetupError::InvalidLoader(l) => "Invalid mod loader '"@ + l@ + "'. Supported: fabric, forge, neoforge, quilt."@,
        SetupError::InvalidPathChars => "Path contains invalid characters. Please avoid using '*', '?', or quotes in path names."@,
        SetupError::EmptyPath => "Mods folder path cannot be empty."@,
    }
}

impl SetupError {
    /// The message shown to the user.
    pub fn message(&self) -> (r: String)
        ensures
            r@ == setup_message(*self),
    {
        match self {
            SetupError::EmptyVersion => string_of("Version cannot be empty. Please enter a Minecraft version."),
            SetupError::InvalidVersion(v) => concat(
                concat("Invalid Minecraft version format (", v.as_str()).as_str(),
                "). Standard format is major.minor[.patch] (e.g., 1.20.1).",
            ),
            SetupError::EmptyLoader => string_of("Mod loader cannot be empty. Supported loaders: fabric, forge, neoforge, quilt."),
            SetupError::InvalidLoader(l) => concat(
                concat("Invalid mod loader '", l.as_str()).as_str(),
                "'. Supported: fabric, forge, neoforge, quilt.",
            ),
            SetupError::InvalidPathChars => string_of(
                "Path contains invalid characters. Please avoid using '*', '?', or quotes in path names.",
            ),
            SetupError::EmptyPath => string_of("Mods folder path cannot be empty."),
        }
    }
}

/// An ASCII character that a Minecraft version may hold: a letter, a digit, `.`,
/// `-` or `_`.
pub open spec fn ascii_version_char(c: char) -> bool {
    ('a' <= c && c <= 'z') || ('A' <= c && c <= 'Z') || ('0' <= c && c <= '9') || c == '.' || c == '-' || c == '_'
}

/// A character that a Minecraft version may hold.
pub open spec fn version_char(c: char) -> bool {
    alphanumeric(c) || c == '.' || c == '-' || c == '_'
}

/// A character that a mods folder may not hold.
pub open spec fn forbidden_path_char(c: char) -> bool {
    c == '\0' || c == '*' || c == '?' || c == '"' || c == '<' || c == '>' || c == '|'
}

/// `s` without its trailing `/`, all of them.
pub open spec fn strip_slashes(s: Seq<char>) -> Seq<char>
    decreases s.len(),
{
    if s.len() > 0 && s.last() == '/' {
        strip_slashes(s.drop_last())
    } else {
        s
    }
}

/// `s` without its trailing `/`, keeping one character at least.
pub open spec fn strip_slashes_keep_one(s: Seq<char>) -> Seq<char>
    decreases s.len(),
{
    if s.len() > 1 && s.last() == '/' {
        strip_slashes_keep_one(s.drop_last())
    } else {
        s
    }
}

/// The folder that `kmgr init` records: backslashes as slashes, trailing slashes
/// removed but for a lone `/`.
pub open spec fn init_folder(s: Seq<char>) -> Seq<char> {
    strip_slashes_keep_one(replace_char_spec(s, '\\', "/"@))
}

/// The folder text once surrounding matching quotes are taken off.
pub open spec fn unquoted(v: Seq<char>) -> Seq<char> {
    if v.len() > 0 && ((v[0] == '\'' && v.last() == '\'') || (v[0] == '"' && v.last() == '"')) {
        v.subrange(1, v.len() - 1)
    } else {
        v
    }
}

/// The folder text with a leading `~/` meaning the home folder, when one is known.
pub open spec fn home_expanded(v: Seq<char>, home: Option<Seq<char>>) -> Seq<char> {
    if v.len() >= 2 && v[0] == '~' && v[1] == '/' {
        match home {
            Some(h) => h + v.drop_first(),
            None => v,
        }
    } else {
        v
    }
}

/// What setup answers for a mods folder typed as `v` (without surrounding white
/// space), with `current` the configured folder and `home` the home folder, if
/// known: the folder, or the refusal (`true` for a forbidden character, `false`
/// for a folder that is left empty).
pub open spec fn spec_mods_folder(v: Seq<char>, current: Seq<char>, home: Option<Seq<char>>) -> Result<Seq<char>, bool> {
    if v.len() == 0 {
        Ok(if current.len() > 0 { current } else { "mods"@ })
    } else {
        let e = home_expanded(unquoted(v), home);
        if exists|i: int| 0 <= i < e.len() && forbidden_path_char(e[i]) {
            Err(true)
        } else {
            let n = strip_slashes(replace_char_spec(e, '\\', "/"@));
            if n.len() == 0 {
                Err(false)
            } else {
                Ok(n)
            }
        }
    }
}

/// `s` without its trailing slashes; with `keep_one`, a lone character stays.
fn strip_trailing_slashes(s: &str, keep_one: bool) -> (r: String)
    ensures
        keep_one ==> r@ == strip_slashes_keep_one(s@),
        !keep_one ==> r@ == strip_slashes(s@),
{
    let mut n = s.unicode_len();
    let min: usize = if keep_one { 1 } else { 0 };
    assert(s@.subrange(0, s@.len() as int) =~= s@);
    while n > min && s.get_char(n - 1) == '/'
        invariant
            n <= s@.len(),
            min == (if keep_one { 1usize } else { 0usize }),
            keep_one ==> strip_slashes_keep_one(s@) == strip_slashes_keep_one(s@.subrange(0, n as int)),
            !keep_one ==> strip_slashes(s@) == strip_slashes(s@.subrange(0, n as int)),
        decreases n,
    {
        assert(s@.subrange(0, n as int).drop_last() =~= s@.subrange(0, n - 1));
        n = n - 1;
    }
    s.substring_char(0, n).to_owned()
}

/// The folder that `kmgr init` records for `folder`.
pub fn normalize_init_folder(folder: &str) -> (r: String)
    ensures
        r@ == init_folder(folder@),
{
    let replaced = replace_char(folder, '\\', "/");
    strip_trailing_slashes(replaced.as_str(), true)
}

/// The verdict on a Minecraft version answer, given the answer without its
/// surrounding white space (`v`) and that text lowercased (`n`): the configured
/// one when the answer is blank; else the lowercased answer, when it holds a
/// digit and only letters, digits, `.`, `-` and `_`.
pub fn mc_version_verdict(v: &str, n: &str, current: &str) -> (r: Result<String, SetupError>)
    ensures
        v@.len() == 0 && current@.len() > 0 ==> (r matches Ok(c) && c@ == current@),
        v@.len() == 0 && current@.len() == 0 ==> (r matches Err(SetupError::EmptyVersion)),
        v@.len() > 0 && (exists|i: int| 0 <= i < n@.len() && '0' <= #[trigger] n@[i] <= '9')
            && (forall|i: int| 0 <= i < n@.len() ==> ascii_version_char(#[trigger] n@[i])) ==> (r matches Ok(c) && c@ == n@),
        v@.len() > 0 ==> if (exists|i: int| 0 <= i < n@.len() && '0' <= #[trigger] n@[i] <= '9')
            && (forall|i: int| 0 <= i < n@.len() ==> version_char(#[trigger] n@[i])) {
            r matches Ok(c) && c@ == n@
        } else {
            r matches Err(SetupError::InvalidVersion(e)) && e@ == v@
        },
{
    if v.unicode_len() == 0 {
        if current.unicode_len() > 0 {
            return Ok(string_of(current));
        } else {
            return Err(SetupError::EmptyVersion);
        }
    }
    let len = n.unicode_len();
    let mut has_digit = false;
    let mut all_valid = true;
    let mut i: usize = 0;
    while i < len
        invariant
            len == n@.len(),
            i <= len,
            has_digit == exists|k: int| 0 <= k < i && '0' <= #[trigger] n@[k] <= '9',
            all_valid == forall|k: int| 0 <= k < i ==> version_char(#[trigger] n@[k]),
            (forall|k: int| 0 <= k < i ==> ascii_version_char(#[trigger] n@[k])) ==> all_valid,
        decreases len - i,
    {
        let c = n.get_char(i);
        if '0' <= c && c <= '9' {
            has_digit = true;
        }
        if !(is_alphanumeric(c) || c == '.' || c == '-' || c == '_') {
            all_valid = false;
        }
        i = i + 1;
    }
    if has_digit && all_valid {
        Ok(string_of(n))
    } else {
        Err(SetupError::InvalidVersion(string_of(v)))
    }
}

/// The Minecraft version that setup records for the answer `input`: the
/// configured one when the answer is blank; else the lowercased answer, when it
/// holds a digit and only letters, digits, `.`, `-` and `_`.
pub fn validate_mc_version(input: &str, current: &str) -> (r: Result<String, SetupError>)
    ensures
        ({
            let v = trimmed(input@);
            let n = lowercase(v);
            if v.len() == 0 {
                if current@.len() > 0 {
                    r matches Ok(c) && c@ == current@
                } else {
                    r matches Err(SetupError::EmptyVersion)
                }
            } else if (exists|i: int| 0 <= i < n.len() && '0' <= #[trigger] n[i] <= '9')
                && (forall|i: int| 0 <= i < n.len() ==> version_char(#[trigger] n[i])) {
                r matches Ok(c) && c@ == n
            } else {
                r matches Err(SetupError::InvalidVersion(e)) && e@ == v
            }
        }),
{
    let v = trim(input);
    let n = to_lowercase(v.as_str());
    mc_version_verdict(v.as_str(), n.as_str(), current)
}

/// The verdict on a mod loader answer, given the answer without its surrounding
/// white space (`v`) and that text lowercased (`n`): the configured one when the
/// answer is blank; else the lowercased answer, when it is a supported loader.
pub fn loader_verdict(v: &str, n: &str, current: &str) -> (r: Result<String, SetupError>)
    ensures
        v@.len() == 0 && current@.len() > 0 ==> (r matches Ok(c) && c@ == current@),
        v@.len() == 0 && current@.len() == 0 ==> (r matches Err(SetupError::EmptyLoader)),
        v@.len() > 0 && supported_loader(n@) ==> (r matches Ok(c) && c@ == n@),
        v@.len() > 0 && !supported_loader(n@) ==> (r matches Err(SetupError::InvalidLoader(e)) && e@ == v@),
{
    if v.unicode_len() == 0 {
        if current.unicode_len() > 0 {
            return Ok(string_of(current));
        } else {
            return Err(SetupError::EmptyLoader);
        }
    }
    if str_eq(n, "fabric") || str_eq(n, "forge") || str_eq(n, "neoforge") || str_eq(n, "quilt") {
        Ok(string_of(n))
    } else {
        Err(SetupError::InvalidLoader(string_of(v)))
    }
}

/// The mod loader that setup records for the answer `input`: the configured one
/// when the answer is blank; else the lowercased answer, when it is a supported loader.
pub fn validate_mod_loader(input: &str, current: &str) -> (r: Result<String, SetupError>)
    ensures
        ({
            let v = trimmed(input@);
            let n = lowercase(v);
            if v.len() == 0 {
                if current@.len() > 0 {
                    r matches Ok(c) && c@ == current@
                } else {
                    r matches Err(SetupError::EmptyLoader)
                }
            } else if supported_loader(n) {
                r matches Ok(c) && c@ == n
            } else {
                r matches Err(SetupError::InvalidLoader(e)) && e@ == v
            }
        }),
{
    let v = trim(input);
    let n = to_lowercase(v.as_str());
    loader_verdict(v.as_str(), n.as_str(), current)
}

/// Whether taking the quotes off `s` would cut a lone quote character.
pub open spec fn lone_quote(s: Seq<char>) -> bool {
    s == seq!['\''] || s == seq!['"']
}

/// The mods folder that setup records for the line typed, given without its
/// surrounding white space: the configured folder (or "mods") when it is empty;
/// else the text without surrounding quotes, with `~/` standing for the home
/// folder, backslashes as slashes and no trailing slash, unless it holds a
/// forbidden character or nothing is left.
pub fn validate_mods_folder(value: &str, current: &str, home: Option<&str>) -> (r: Result<String, SetupError>)
    requires
        !lone_quote(value@),
    ensures
        ({
            let h = match home {
                Some(x) => Some(x@),
                None => None,
            };
            match spec_mods_folder(value@, current@, h) {
                Ok(f) => r matches Ok(x) && x@ == f,
                Err(true) => r matches Err(SetupError::InvalidPathChars),
                Err(false) => r matches Err(SetupError::EmptyPath),
            }
        }),
{
    let ghost h = match home {
        Some(x) => Some(x@),
        None => None,
    };
    let v = string_of(value);
    let len = v.unicode_len();
    if len == 0 {
        if current.unicode_len() > 0 {
            return Ok(string_of(current));
        } else {
            return Ok(string_of("mods"));
        }
    }
    let quoted = (starts_with_char(v.as_str(), '\'') && ends_with_char(v.as_str(), '\''))
        || (starts_with_char(v.as_str(), '"') && ends_with_char(v.as_str(), '"'));
    let u: String = if quoted {
        proof {
            if len == 1 {
                assert(v@ =~= seq![v@[0]]);
            }
        }
        v.as_str().substring_char(1, len - 1).to_owned()
    } else {
        v
    };
    assert(u@ == unquoted(value@));
    let ulen = u.unicode_len();
    let e: String = if ulen >= 2 && u.as_str().get_char(0) == '~' && u.as_str().get_char(1) == '/' {
        match home {
            Some(hm) => {
                let rest = u.as_str().substring_char(1, ulen);
                assert(rest@ =~= u@.drop_first());
                concat(hm, rest)
            },
            None => u,
        }
    } else {
        u
    };
    assert(e@ == home_expanded(unquoted(value@), h));
    let elen = e.unicode_len();
    let mut i: usize = 0;
    while i < elen
        invariant
            elen == e@.len(),
            i <= elen,
            e@ == home_expanded(unquoted(value@), h),
            value@.len() > 0,
            h == match home {
                Some(x) => Some(x@),
                None => None,
            },
            forall|k: int| 0 <= k < i ==> !forbidden_path_char(#[trigger] e@[k]),
        decreases elen - i,
    {
        let c = e.as_str().get_char(i);
        if c == '\0' || c == '*' || c == '?' || c == '"' || c == '<' || c == '>' || c == '|' {
            assert(forbidden_path_char(e@[i as int]));
            return Err(SetupError::InvalidPathChars);
        }
        i = i + 1;
    }
    let replaced = replace_char(e.as_str(), '\\', "/");
    let n = strip_trailing_slashes(replaced.as_str(), false);
    if n.unicode_len() == 0 {
        Err(SetupError::EmptyPath)
    } else {
        Ok(n)
    }
}

impl KmgrState {
    /// What `kmgr init` records: the Minecraft version and the loader, and the mods
    /// folder when one is given.
    pub fn apply_init(&mut self, mc_version: String, loader: String, mods_folder: Option<&str>)
        ensures
            final(self).default_mc_version == mc_version,
            final(self).mod_loader == loader,
            match mods_folder {
                Some(f) => final(self).mods_folder@ == init_folder(f@),
                None => final(self).mods_folder == old(self).mods_folder,
            },
            final(self).installed_mods == old(self).installed_mods,
            final(self).profiles == old(self).profiles,
            final(self).active_profile == old(self).active_profile,
    {
        self.default_mc_version = mc_version;
        self.mod_loader = loader;
        match mods_folder {
            Some(f) => {
                self.mods_folder = normalize_init_folder(f);
            },
            None => {},
        }
    }
}

} // verus!
