//! Application identifiers: desktop-entry file names versus shell commands, and
//! what the host must be asked about each kind.

use vstd::prelude::*;

verus! {

/// The suffix that marks an identifier as a desktop-entry file name.
pub open spec fn desktop_suffix() -> Seq<char> {
    seq!['.', 'd', 'e', 's', 'k', 't', 'o', 'p']
}

/// An identifier names a desktop entry iff it ends in the desktop suffix.
pub open spec fn is_desktop_spec(app: Seq<char>) -> bool {
    app.len() >= desktop_suffix().len()
        && app.subrange(app.len() - desktop_suffix().len(), app.len() as int) == desktop_suffix()
}

/// The bare name under which an application shows up in the process list.
pub open spec fn search_term_spec(app: Seq<char>) -> Seq<char> {
    if is_desktop_spec(app) {
        app.subrange(0, app.len() - desktop_suffix().len())
    } else {
        app
    }
}

/// The two kinds of application identifier.
#[derive(Clone, Copy, Debug, PartialEq, Eq, Structural)]
pub enum AppKind {
    /// A desktop-entry file name, looked up in the desktop-entry directories.
    Desktop,
    /// An executable name, resolved through the shell's search path.
    Command,
}

/// Tells the two kinds apart: only the suffix decides.
pub fn classify(app: &str) -> (r: AppKind)
    ensures
        r == (if is_desktop_spec(app@) { AppKind::Desktop } else { AppKind::Command }),
{
    let n = app.unicode_len();
    if n < 8 {
        return AppKind::Command;
    }
    let tail = app.substring_char(n - 8, n);
    let suffix = ".desktop";
    proof {
        reveal_strlit(".desktop");
    }
    assert(suffix@ =~= desktop_suffix());
    if tail.to_owned() == suffix.to_owned() {
        AppKind::Desktop
    } else {
        AppKind::Command
    }
}

/// The process-name substring searched for to tell whether `app` is running:
/// the identifier with its desktop suffix stripped, if it has one.
pub fn process_search_term(app: &str) -> (r: String)
    ensures
        r@ == search_term_spec(app@),
{
    match classify(app) {
        AppKind::Desktop => {
            let n = app.unicode_len();
            app.substring_char(0, n - 8).to_owned()
        },
        AppKind::Command => app.to_owned(),
    }
}

/// The desktop-entry directories searched, in order, for a user whose home
/// directory is `home`: system-wide, local-system, user-local, system-profile
/// and user-profile locations.
pub open spec fn default_desktop_dirs_spec(home: Seq<char>) -> Seq<Seq<char>> {
    seq![
        "/usr/share/applications"@,
        "/usr/local/share/applications"@,
        home + "/.local/share/applications"@,
        "/run/current-system/sw/share/applications"@,
        home + "/.nix-profile/share/applications"@,
    ]
}

/// The file that a desktop entry named `file` would be in under `dir`.
pub open spec fn candidate_path(dir: Seq<char>, file: Seq<char>) -> Seq<char> {
    dir + "/"@ + file
}

/// Where a desktop entry named `file` may be, one path per directory, in the
/// order of the directories.
pub open spec fn candidates_spec(dirs: Seq<Seq<char>>, file: Seq<char>) -> Seq<Seq<char>> {
    dirs.map_values(|d: Seq<char>| candidate_path(d, file))
}

/// The default desktop-entry directories for the home directory `home`.
pub fn default_desktop_dirs(home: &str) -> (r: Vec<String>)
    ensures
        r.deep_view() == default_desktop_dirs_spec(home@),
{
    let mut v: Vec<String> = Vec::new();
    v.push("/usr/share/applications".to_owned());
    v.push("/usr/local/share/applications".to_owned());
    v.push(home.to_owned().concat("/.local/share/applications"));
    v.push("/run/current-system/sw/share/applications".to_owned());
    v.push(home.to_owned().concat("/.nix-profile/share/applications"));
    assert(v.deep_view() =~= default_desktop_dirs_spec(home@));
    v
}

/// The paths at which a desktop entry named `file` is looked for, one under
/// each of `dirs`, in order.
pub fn desktop_candidates(dirs: &Vec<String>, file: &str) -> (r: Vec<String>)
    ensures
        r.deep_view() == candidates_spec(dirs.deep_view(), file@),
{
    let mut out: Vec<String> = Vec::new();
    let mut i: usize = 0;
    while i < dirs.len()
        invariant
            i <= dirs.len(),
            out@.len() == i,
            forall|j: int|
                0 <= j < i ==> #[trigger] out@[j]@ == candidate_path(dirs@[j]@, file@),
        decreases dirs.len() - i,
    {
        let path = dirs[i].clone().concat("/").concat(file);
        out.push(path);
        i = i + 1;
    }
    assert(out.deep_view() =~= candidates_spec(dirs.deep_view(), file@));
    out
}

/// What the host must be asked to tell whether an application is installed.
#[derive(Debug)]
pub enum AvailabilityCheck {
    /// Resolve this executable name through the shell's search path.
    Executable(String),
    /// Look for these files, in order; the first that exists settles it.
    DesktopEntry(Vec<String>),
}

/// The question to put to the host about `app`: a desktop entry is looked up
/// only among the files under `dirs`, a command only through the search path,
/// never both.
pub fn availability_check(app: &str, dirs: &Vec<String>) -> (r: AvailabilityCheck)
    ensures
        match r {
            AvailabilityCheck::Executable(cmd) => !is_desktop_spec(app@) && cmd@ == app@,
            AvailabilityCheck::DesktopEntry(paths) => is_desktop_spec(app@) && paths.deep_view()
                == candidates_spec(dirs.deep_view(), app@),
        },
{
    match classify(app) {
        AppKind::Desktop => AvailabilityCheck::DesktopEntry(desktop_candidates(dirs, app)),
        AppKind::Command => AvailabilityCheck::Executable(app.to_owned()),
    }
}

} // verus!
