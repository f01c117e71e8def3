//! Where the configuration lives.

use std::path::PathBuf;
use vstd::prelude::*;
use vstd::string::*;
use vstd::utf8::*;

verus! {

/// A path of the platform.
#[verifier::external_type_specification]
#[verifier::external_body]
pub struct ExPathBuf(PathBuf);

/// The components of a path in order, each as its encoded bytes. On Unix-like
/// systems two paths are equal exactly when their components are.
pub uninterp spec fn components(path: PathBuf) -> Seq<Seq<u8>>;

/// A name that is one component of a path: ASCII letters, digits and dots.
pub open spec fn is_plain_name(name: Seq<char>) -> bool {
    &&& name.len() > 0
    &&& forall|i: int|
        0 <= i < name.len() ==> {
            let c = #[trigger] name[i];
            'a' <= c <= 'z' || 'A' <= c <= 'Z' || '0' <= c <= '9' || c == '.'
        }
}

/// `PathBuf::from` on a plain name gives the path of that one component. The
/// claim is made for Unix-like paths.
#[verifier::external_body]
fn path_of(name: &str) -> (path: PathBuf)
    requires
        is_plain_name(name@),
    ensures
        components(path) == seq![name.spec_bytes()],
{
    PathBuf::from(name)
}

/// `Path::join` with a plain name other than `.` and `..` adds it as the last
/// component. The claim is made for Unix-like paths.
#[verifier::external_body]
fn join(base: &PathBuf, name: &str) -> (path: PathBuf)
    requires
        is_plain_name(name@),
        name@ != "."@,
        name@ != ".."@,
    ensures
        components(path) == components(*base).push(name.spec_bytes()),
{
    base.join(name)
}

/// Cloning a `PathBuf` gives the same path, spelling included.
pub assume_specification[ <PathBuf as Clone>::clone ](path: &PathBuf) -> (copy: PathBuf)
    ensures
        copy == *path,
;

/// The configuration directory for given values of `$XDG_CONFIG_HOME` and
/// `$HOME`, as components: `meow` in the former if it is set, else
/// `.config/meow` in the latter if that is set, else `meow` in the current
/// directory.
pub open spec fn default_components(xdg: Option<PathBuf>, home: Option<PathBuf>) -> Seq<Seq<u8>> {
    let base = match (xdg, home) {
        (Some(xdg), _) => components(xdg),
        (None, Some(home)) => components(home).push(".config".spec_bytes()),
        (None, None) => seq![".".spec_bytes()],
    };
    base.push("meow".spec_bytes())
}

/// Default config directory: `$XDG_CONFIG_HOME/meow` or `$HOME/.config/meow`.
///
/// The arguments are the values of the two variables where they are set.
pub fn default_config_dir(xdg_config_home: Option<PathBuf>, home: Option<PathBuf>) -> (dir: PathBuf)
    ensures
        components(dir) == default_components(xdg_config_home, home),
{
    proof {
        reveal_strlit("meow");
        reveal_strlit(".config");
        reveal_strlit(".");
        reveal_strlit("..");
    }
    let base: PathBuf = match xdg_config_home {
        Some(base) => base,
        None => match home {
            Some(home) => join(&home, ".config"),
            None => path_of("."),
        },
    };
    join(&base, "meow")
}

/// The home directory set at startup, if any.
pub struct HomeDir {
    dir: Option<PathBuf>,
}

impl View for HomeDir {
    type V = Option<PathBuf>;

    closed spec fn view(&self) -> Option<PathBuf> {
        self.dir
    }
}

impl HomeDir {
    /// Nothing set yet.
    pub fn new() -> (home: Self)
        ensures
            home@ is None,
    {
        HomeDir { dir: None }
    }
}

/// The setting after an attempt to override the home directory: an override
/// that is there stays.
pub open spec fn overridden(setting: Option<PathBuf>, dir: PathBuf) -> Option<PathBuf> {
    if setting is None {
        Some(dir)
    } else {
        setting
    }
}

/// The setting after a series of attempts.
pub open spec fn overridden_all(setting: Option<PathBuf>, dirs: Seq<PathBuf>) -> Option<PathBuf>
    decreases dirs.len(),
{
    if dirs.len() == 0 {
        setting
    } else {
        overridden(overridden_all(setting, dirs.drop_last()), dirs.last())
    }
}

/// `dir` is the home directory under a setting and the two variables: the
/// override itself if there is one, else the default.
pub open spec fn is_home(
    dir: PathBuf,
    setting: Option<PathBuf>,
    xdg: Option<PathBuf>,
    home: Option<PathBuf>,
) -> bool {
    match setting {
        Some(set) => dir == set,
        None => components(dir) == default_components(xdg, home),
    }
}

/// Override the default home directory (normally `$XDG_CONFIG_HOME/meow`
/// or `$HOME/.config/meow`). The first override stands; later ones are ignored.
pub fn set_home_dir(setting: &mut HomeDir, dir: PathBuf)
    ensures
        final(setting)@ == overridden(old(setting)@, dir),
{
    if setting.dir.is_none() {
        setting.dir = Some(dir);
    }
}

/// Returns the configured home directory, or falls back to the XDG/HOME-based
/// default via [`default_config_dir`].
pub fn home_dir(
    setting: &HomeDir,
    xdg_config_home: Option<PathBuf>,
    home: Option<PathBuf>,
) -> (dir: PathBuf)
    ensures
        setting@ is Some ==> dir == setting@->0,
        is_home(dir, setting@, xdg_config_home, home),
{
    match &setting.dir {
        Some(dir) => dir.clone(),
        None => default_config_dir(xdg_config_home, home),
    }
}

/// Of all overrides the first one stands, unchanged, whatever the variables say;
/// with none, the variables decide.
pub proof fn lemma_first_override_stands(
    dirs: Seq<PathBuf>,
    dir: PathBuf,
    xdg: Option<PathBuf>,
    home: Option<PathBuf>,
)
    requires
        is_home(dir, overridden_all(None, dirs), xdg, home),
    ensures
        dirs.len() > 0 ==> dir == dirs[0],
        dirs.len() == 0 ==> components(dir) == default_components(xdg, home),
{
    lemma_first_override(dirs);
}

/// A series of attempts leaves the first of them.
proof fn lemma_first_override(dirs: Seq<PathBuf>)
    ensures
        dirs.len() > 0 ==> overridden_all(None, dirs) == Some(dirs[0]),
    decreases dirs.len(),
{
    if dirs.len() > 0 {
        lemma_first_override(dirs.drop_last());
    }
}

/// An attempt to override takes effect exactly if nothing was set before, and
/// then sets the very directory that it was given.
pub proof fn lemma_override(set: PathBuf, dir: PathBuf)
    ensures
        overridden(None, dir) == Some(dir),
        overridden(Some(set), dir) == Some(set),
{
}

/// The default directory, component by component and byte by byte: `meow` below
/// `$XDG_CONFIG_HOME` whatever `$HOME` is; without the former `.config` and
/// `meow` below `$HOME`; without either `meow` below `.`.
pub proof fn lemma_default_dir(xdg: PathBuf, home: PathBuf, any: Option<PathBuf>)
    ensures
        default_components(Some(xdg), any) == components(xdg).push(
            seq![0x6du8, 0x65u8, 0x6fu8, 0x77u8],
        ),
        default_components(None, Some(home)) == components(home).push(
            seq![0x2eu8, 0x63u8, 0x6fu8, 0x6eu8, 0x66u8, 0x69u8, 0x67u8],
        ).push(seq![0x6du8, 0x65u8, 0x6fu8, 0x77u8]),
        default_components(None, None) == seq![
            seq![0x2eu8],
            seq![0x6du8, 0x65u8, 0x6fu8, 0x77u8],
        ],
{
    reveal_strlit("meow");
    reveal_strlit(".config");
    reveal_strlit(".");
    is_ascii_chars_encode_utf8("meow"@);
    is_ascii_chars_encode_utf8(".config"@);
    is_ascii_chars_encode_utf8("."@);
    assert("meow".spec_bytes() =~= seq![0x6du8, 0x65u8, 0x6fu8, 0x77u8]);
    assert(".config".spec_bytes() =~= seq![
        0x2eu8,
        0x63u8,
        0x6fu8,
        0x6eu8,
        0x66u8,
        0x69u8,
        0x67u8,
    ]);
    assert(".".spec_bytes() =~= seq![0x2eu8]);
    assert(default_components(None, None) =~= seq![
        seq![0x2eu8],
        seq![0x6du8, 0x65u8, 0x6fu8, 0x77u8],
    ]);
}

} // verus!
