//! Where the configuration is kept.
use vstd::prelude::*;
use crate::text;
use crate::text::{concat, concat3, ends_with, starts_with};
use crate::views;

verus! {

/// The variable that counts more than anything else.
pub const OTTER_CONFIG_DIR_ENV: &'static str = "OTTER_CONFIG_DIR";

/// The directory in the home directory.
pub const OTTER_HOME_DIRNAME: &'static str = ".otter";

/// The directory in the configuration directory of the desktop.
pub const OTTER_XDG_DIRNAME: &'static str = "otter";

/// A path under another, with one `/` between them. An absolute path takes the place
/// of the other.
pub open spec fn joined_path(root: Seq<char>, relative: Seq<char>) -> Seq<char> {
    if text::begins(relative, "/"@) {
        relative
    } else if root.len() == 0 || text::ends(root, "/"@) {
        root + relative
    } else {
        root + "/"@ + relative
    }
}

/// A path under another.
pub fn join_path(root: &str, relative: &str) -> (r: String)
    ensures
        r@ == joined_path(root@, relative@),
{
    if starts_with(relative, "/") {
        relative.to_owned()
    } else if root.is_empty() || ends_with(root, "/") {
        concat(root, relative)
    } else {
        concat3(root, "/", relative)
    }
}

/// What the surroundings say of where the configuration is kept.
pub struct ConfigEnv {
    /// The variable [`OTTER_CONFIG_DIR_ENV`].
    pub config_dir: Option<String>,
    /// The variable `XDG_CONFIG_HOME`.
    pub xdg_config_home: Option<String>,
    /// The home directory.
    pub home: Option<String>,
}

/// The home directory: the variable `HOME`, unless it is empty, else what the list of
/// users says.
pub open spec fn home_of(home: Option<Seq<char>>, listed: Option<Seq<char>>) -> Option<Seq<char>> {
    match home {
        Some(h) => if h.len() > 0 {
            Some(h)
        } else {
            listed
        },
        None => listed,
    }
}

/// The home directory.
pub fn home_dir(home: Option<String>, listed: Option<String>) -> (r: Option<String>)
    ensures
        views::opt(r) == home_of(views::opt(home), views::opt(listed)),
{
    match home {
        Some(h) => if !h.as_str().is_empty() {
            Some(h)
        } else {
            listed
        },
        None => listed,
    }
}

/// Where the configuration is kept.
pub open spec fn config_root(
    config_dir: Option<Seq<char>>,
    xdg: Option<Seq<char>>,
    home: Option<Seq<char>>,
) -> Option<Seq<char>> {
    if config_dir is Some {
        config_dir
    } else if xdg is Some && xdg->0.len() > 0 {
        Some(joined_path(xdg->0, OTTER_XDG_DIRNAME@))
    } else {
        match home {
            Some(h) => Some(joined_path(h, OTTER_HOME_DIRNAME@)),
            None => None,
        }
    }
}

/// Where the configuration is kept; nowhere where no home directory is known.
pub fn config_dir(env: &ConfigEnv) -> (r: Option<String>)
    ensures
        views::opt(r) == config_root(
            views::opt(env.config_dir),
            views::opt(env.xdg_config_home),
            views::opt(env.home),
        ),
{
    if let Some(d) = &env.config_dir {
        return Some(d.clone());
    }
    if let Some(x) = &env.xdg_config_home {
        if !x.as_str().is_empty() {
            return Some(join_path(x.as_str(), OTTER_XDG_DIRNAME));
        }
    }
    match &env.home {
        Some(h) => Some(join_path(h.as_str(), OTTER_HOME_DIRNAME)),
        None => None,
    }
}

/// A path in the directory where the configuration is kept.
pub fn config_path(env: &ConfigEnv, relative: &str) -> (r: Option<String>)
    ensures
        views::opt(r) == (match config_root(
            views::opt(env.config_dir),
            views::opt(env.xdg_config_home),
            views::opt(env.home),
        ) {
            Some(root) => Some(joined_path(root, relative@)),
            None => None,
        }),
{
    match config_dir(env) {
        Some(root) => Some(join_path(root.as_str(), relative)),
        None => None,
    }
}

/// The configuration has a place wherever a home directory is known, or a variable
/// names one.
pub proof fn law_config_has_a_place(
    config_dir: Option<Seq<char>>,
    xdg: Option<Seq<char>>,
    home: Option<Seq<char>>,
)
    ensures
        config_root(config_dir, xdg, home) is None <==> config_dir is None && home is None && (
        xdg is None || xdg->0.len() == 0),
{
}

/// A path under a directory begins with the directory and ends with the path, parted by exactly
/// one slash; a path that is absolute stays where it is.
pub proof fn law_path_is_under_its_directory(root: Seq<char>, relative: Seq<char>)
    ensures
        relative.len() > 0 && relative[0] == '/' ==> joined_path(root, relative) == relative,
        relative.len() == 0 || relative[0] != '/' ==> {
            &&& root.len() == 0 ==> joined_path(root, relative) == relative
            &&& root.len() > 0 && root.last() == '/' ==> joined_path(root, relative) == root
                + relative
            &&& root.len() > 0 && root.last() != '/' ==> joined_path(root, relative) == root
                + seq!['/'] + relative
        },
{
    reveal_strlit("/");
    assert("/"@ =~= seq!['/']);
    if relative.len() > 0 {
        assert(relative.take(1) =~= seq![relative[0]]);
        assert(seq![relative[0]][0] == relative[0]);
        assert(seq!['/'][0] == '/');
    }
    if root.len() > 0 {
        assert(root.skip(root.len() - 1) =~= seq![root.last()]);
        assert(seq![root.last()][0] == root.last());
        assert(seq!['/'][0] == '/');
    } else {
        assert(root + relative =~= relative);
    }
}

/// The directory that a variable names counts most, then the one of the desktop, then the one in
/// the home directory; an empty variable of the desktop names none.
pub proof fn law_named_directory_counts_most(
    named: Seq<char>,
    xdg: Option<Seq<char>>,
    desktop: Seq<char>,
    home: Option<Seq<char>>,
    own: Seq<char>,
)
    requires
        desktop.len() > 0,
    ensures
        config_root(Some(named), xdg, home) == Some(named),
        config_root(None, Some(desktop), home) == Some(joined_path(desktop, "otter"@)),
        config_root(None, None, Some(own)) == Some(joined_path(own, ".otter"@)),
        config_root(None, Some(Seq::empty()), Some(own)) == Some(joined_path(own, ".otter"@)),
        home_of(Some(desktop), home) == Some(desktop),
        home_of(Some(Seq::empty()), home) == home,
        home_of(None, home) == home,
{
}

} // verus!
