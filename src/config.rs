//! The configuration: environment names, each mapped to an ordered list of
//! application identifiers.

use vstd::prelude::*;

verus! {

/// The mathematical form of a configuration: its environments in order, each a
/// name and the ordered identifiers of its applications.
pub type ConfigView = Seq<(Seq<char>, Seq<Seq<char>>)>;

/// The environment names of `c`, in order.
pub open spec fn env_names(c: ConfigView) -> Seq<Seq<char>> {
    c.map_values(|e: (Seq<char>, Seq<Seq<char>>)| e.0)
}

/// Environment names are unique, and no environment lists an application twice.
pub open spec fn config_wf(c: ConfigView) -> bool {
    &&& env_names(c).no_duplicates()
    &&& forall|i: int| 0 <= i < c.len() ==> (#[trigger] c[i]).1.no_duplicates()
}

/// `c` has an environment called `name`.
pub open spec fn has_env(c: ConfigView, name: Seq<char>) -> bool {
    env_names(c).contains(name)
}

/// The position of the environment called `name` (meaningful when it exists).
pub open spec fn env_index(c: ConfigView, name: Seq<char>) -> int {
    env_names(c).index_of(name)
}

/// The applications of the environment called `name`, if there is one.
pub open spec fn apps_of(c: ConfigView, name: Seq<char>) -> Option<Seq<Seq<char>>> {
    if has_env(c, name) {
        Some(c[env_index(c, name)].1)
    } else {
        None
    }
}

/// The mathematical form of a list of (name, applications) entries.
pub open spec fn entries_view(entries: Seq<(String, Vec<String>)>) -> ConfigView {
    entries.map_values(|e: (String, Vec<String>)| (e.0@, e.1.deep_view()))
}

/// What loading a list of saved entries gives: the same configuration when it
/// keeps the invariant, nothing otherwise.
pub open spec fn load_spec(entries: ConfigView) -> Option<ConfigView> {
    if config_wf(entries) {
        Some(entries)
    } else {
        None
    }
}

/// Saving a well-formed configuration and loading the result gives it back, so
/// saving once more gives what the first save gave: every environment keeps its
/// applications in their order.
pub proof fn law_round_trip(c: ConfigView)
    requires
        config_wf(c),
    ensures
        load_spec(c) == Some(c),
        load_spec(load_spec(c).unwrap()) == load_spec(c),
{
}

/// The listing of one environment's applications: one indented line each.
pub open spec fn render_apps(apps: Seq<Seq<char>>) -> Seq<char>
    decreases apps.len(),
{
    if apps.len() == 0 {
        Seq::empty()
    } else {
        render_apps(apps.drop_last()) + "  - "@ + apps.last() + "\n"@
    }
}

/// The listing of a configuration: each environment's name and a colon on a
/// line, then its applications.
pub open spec fn render_spec(c: ConfigView) -> Seq<char>
    decreases c.len(),
{
    if c.len() == 0 {
        Seq::empty()
    } else {
        render_spec(c.drop_last()) + c.last().0 + ":\n"@ + render_apps(c.last().1)
    }
}

/// In a well-formed configuration the environment called `name` sits at one
/// position only.
pub proof fn lemma_env_index_unique(c: ConfigView, name: Seq<char>, i: int)
    requires
        config_wf(c),
        0 <= i < c.len(),
        c[i].0 == name,
    ensures
        has_env(c, name),
        env_index(c, name) == i,
{
    assert(env_names(c)[i] == name);
    let k = env_index(c, name);
    assert(0 <= k < env_names(c).len() && env_names(c)[k] == name);
}

/// Why a list of entries is not a valid configuration.
#[derive(Debug, PartialEq, Eq)]
pub enum ConfigError {
    /// Two environments carry this name.
    DuplicateEnvironment(String),
    /// This environment lists this application twice.
    DuplicateApp {
        /// The environment that repeats the application.
        environment: String,
        /// The repeated application identifier.
        app: String,
    },
}

/// Environments of applications, each name given once, in a fixed order.
#[derive(Debug)]
pub struct Config {
    environments: Vec<(String, Vec<String>)>,
}

impl View for Config {
    type V = ConfigView;

    closed spec fn view(&self) -> ConfigView {
        entries_view(self.environments@)
    }
}

/// The first position in `items` whose identifier already occurred before it.
fn first_repeat(items: &Vec<String>) -> (r: Option<usize>)
    ensures
        match r {
            Some(j) => j < items@.len() && exists|k: int|
                0 <= k < j && #[trigger] items@[k]@ == items@[j as int]@,
            None => items.deep_view().no_duplicates(),
        },
{
    let mut j: usize = 0;
    while j < items.len()
        invariant
            j <= items@.len(),
            forall|a: int, b: int|
                0 <= a < b < j ==> #[trigger] items@[a]@ != #[trigger] items@[b]@,
        decreases items.len() - j,
    {
        let mut k: usize = 0;
        while k < j
            invariant
                k <= j < items@.len(),
                forall|a: int| 0 <= a < k ==> #[trigger] items@[a]@ != items@[j as int]@,
            decreases j - k,
        {
            if items[k] == items[j] {
                return Some(j);
            }
            k = k + 1;
        }
        j = j + 1;
    }
    assert forall|a: int, b: int|
        0 <= a < items.deep_view().len() && 0 <= b < items.deep_view().len() && a != b implies
        items.deep_view()[a] != items.deep_view()[b] by {
        if a < b {
            assert(items@[a]@ != items@[b]@);
        } else {
            assert(items@[b]@ != items@[a]@);
        }
    }
    None
}

impl Config {
    /// This configuration keeps its invariant.
    pub open spec fn wf(&self) -> bool {
        config_wf(self@)
    }

    /// The configuration with no environment.
    pub fn new() -> (r: Config)
        ensures
            r@ == Seq::<(Seq<char>, Seq<Seq<char>>)>::empty(),
            r.wf(),
    {
        let r = Config { environments: Vec::new() };
        assert(r@ =~= Seq::<(Seq<char>, Seq<Seq<char>>)>::empty());
        r
    }

    /// Builds a configuration from (name, applications) entries, kept in their
    /// order; fails iff a name repeats or an environment lists an application
    /// twice.
    pub fn from_entries(entries: Vec<(String, Vec<String>)>) -> (r: Result<Config, ConfigError>)
        ensures
            r is Ok <==> load_spec(entries_view(entries@)) is Some,
            match r {
                Ok(c) => load_spec(entries_view(entries@)) == Some(c@),
                Err(ConfigError::DuplicateEnvironment(name)) => !env_names(
                    entries_view(entries@),
                ).no_duplicates() && env_names(entries_view(entries@)).contains(name@),
                Err(ConfigError::DuplicateApp { environment, app }) => {
                    &&& env_names(entries_view(entries@)).no_duplicates()
                    &&& exists|i: int|
                        0 <= i < entries@.len() && (#[trigger] entries@[i]).0@ == environment@
                            && !entries@[i].1.deep_view().no_duplicates()
                            && entries@[i].1.deep_view().contains(app@)
                },
            },
    {
        let ghost cv = entries_view(entries@);
        let mut names: Vec<String> = Vec::new();
        let mut i: usize = 0;
        while i < entries.len()
            invariant
                i <= entries@.len(),
                cv == entries_view(entries@),
                names@.len() == i,
                forall|j: int| 0 <= j < i ==> #[trigger] names@[j]@ == entries@[j].0@,
            decreases entries.len() - i,
        {
            names.push(entries[i].0.clone());
            i = i + 1;
        }
        assert(names.deep_view() =~= env_names(cv));
        if let Some(j) = first_repeat(&names) {
            proof {
                let k = choose|k: int| 0 <= k < j && #[trigger] names@[k]@ == names@[j as int]@;
                assert(env_names(cv)[k] == names@[k]@);
                assert(env_names(cv)[j as int] == names@[j as int]@);
                assert(!config_wf(cv));
            }
            return Err(ConfigError::DuplicateEnvironment(names[j].clone()));
        }
        let mut i: usize = 0;
        while i < entries.len()
            invariant
                i <= entries@.len(),
                cv == entries_view(entries@),
                env_names(cv).no_duplicates(),
                forall|j: int| 0 <= j < i ==> (#[trigger] cv[j]).1.no_duplicates(),
            decreases entries.len() - i,
        {
            if let Some(j) = first_repeat(&entries[i].1) {
                let ghost apps = entries@[i as int].1.deep_view();
                assert(apps[j as int] == entries@[i as int].1@[j as int]@);
                proof {
                    let k = choose|k: int|
                        0 <= k < j && #[trigger] entries@[i as int].1@[k]@ == entries@[i as int].1@[j as int]@;
                    assert(apps[k] == entries@[i as int].1@[k]@);
                    assert(!apps.no_duplicates());
                    assert(cv[i as int].1 == apps);
                    assert(!config_wf(cv));
                }
                return Err(
                    ConfigError::DuplicateApp {
                        environment: entries[i].0.clone(),
                        app: entries[i].1[j].clone(),
                    },
                );
            }
            assert(cv[i as int].1 == entries@[i as int].1.deep_view());
            i = i + 1;
        }
        Ok(Config { environments: entries })
    }

    /// The (name, applications) entries of this configuration, in order.
    pub fn to_entries(&self) -> (r: Vec<(String, Vec<String>)>)
        ensures
            entries_view(r@) == self@,
    {
        let mut out: Vec<(String, Vec<String>)> = Vec::new();
        let mut i: usize = 0;
        while i < self.environments.len()
            invariant
                i <= self.environments@.len(),
                out@.len() == i,
                forall|j: int|
                    0 <= j < i ==> (#[trigger] out@[j]).0@ == self.environments@[j].0@
                        && out@[j].1.deep_view() == self.environments@[j].1.deep_view(),
            decreases self.environments.len() - i,
        {
            let name = self.environments[i].0.clone();
            let apps = self.environments[i].1.clone();
            out.push((name, apps));
            i = i + 1;
        }
        assert(entries_view(out@) =~= self@);
        out
    }

    /// The position of the environment called `name`, if there is one.
    pub fn find_environment(&self, name: &str) -> (r: Option<usize>)
        ensures
            match r {
                Some(i) => i < self@.len() && self@[i as int].0 == name@ && (self.wf() ==> i
                    == env_index(self@, name@)),
                None => !has_env(self@, name@),
            },
    {
        let wanted = name.to_owned();
        let mut i: usize = 0;
        while i < self.environments.len()
            invariant
                i <= self.environments@.len(),
                wanted@ == name@,
                forall|j: int| 0 <= j < i ==> #[trigger] self@[j].0 != name@,
            decreases self.environments.len() - i,
        {
            if self.environments[i].0 == wanted {
                proof {
                    if self.wf() {
                        lemma_env_index_unique(self@, name@, i as int);
                    }
                }
                return Some(i);
            }
            i = i + 1;
        }
        assert forall|j: int| 0 <= j < env_names(self@).len() implies env_names(self@)[j]
            != name@ by {
            assert(self@[j].0 != name@);
        }
        None
    }

    /// Whether an environment called `name` exists.
    pub fn contains_environment(&self, name: &str) -> (r: bool)
        ensures
            r == has_env(self@, name@),
    {
        match self.find_environment(name) {
            Some(i) => {
                assert(env_names(self@)[i as int] == name@);
                true
            },
            None => false,
        }
    }

    /// The environment names, in order.
    pub fn environment_names(&self) -> (r: Vec<String>)
        ensures
            r.deep_view() == env_names(self@),
    {
        let mut out: Vec<String> = Vec::new();
        let mut i: usize = 0;
        while i < self.environments.len()
            invariant
                i <= self.environments@.len(),
                out@.len() == i,
                forall|j: int| 0 <= j < i ==> #[trigger] out@[j]@ == self@[j].0,
            decreases self.environments.len() - i,
        {
            out.push(self.environments[i].0.clone());
            i = i + 1;
        }
        assert(out.deep_view() =~= env_names(self@));
        out
    }

    /// The applications of the environment called `name`, in order.
    pub fn apps(&self, name: &str) -> (r: Option<&Vec<String>>)
        requires
            self.wf(),
        ensures
            match r {
                Some(v) => apps_of(self@, name@) == Some(v.deep_view()),
                None => apps_of(self@, name@) is None,
            },
    {
        match self.find_environment(name) {
            Some(i) => {
                assert(env_names(self@)[i as int] == name@);
                Some(&self.environments[i].1)
            },
            None => None,
        }
    }

    /// The listing of this configuration, environments and applications in
    /// order.
    pub fn render(&self) -> (r: String)
        ensures
            r@ == render_spec(self@),
    {
        let mut out = String::new();
        let mut e: usize = 0;
        while e < self.environments.len()
            invariant
                e <= self@.len(),
                out@ == render_spec(self@.subrange(0, e as int)),
            decreases self@.len() - e,
        {
            let ghost prefix = self@.subrange(0, e as int);
            let name = &self.environments[e].0;
            let apps = &self.environments[e].1;
            out.append(name.as_str());
            out.append(":\n");
            let ghost head = out@;
            let mut a: usize = 0;
            while a < apps.len()
                invariant
                    a <= apps@.len(),
                    out@ == head + render_apps(apps.deep_view().subrange(0, a as int)),
                decreases apps@.len() - a,
            {
                out.append("  - ");
                out.append(apps[a].as_str());
                out.append("\n");
                assert(apps.deep_view().subrange(0, a + 1).drop_last() =~= apps.deep_view().subrange(
                    0,
                    a as int,
                ));
                a = a + 1;
                assert(out@ =~= head + render_apps(apps.deep_view().subrange(0, a as int)));
            }
            assert(apps.deep_view().subrange(0, a as int) =~= apps.deep_view());
            assert(self@.subrange(0, e + 1).drop_last() =~= prefix);
            e = e + 1;
            assert(out@ =~= render_spec(self@.subrange(0, e as int)));
        }
        assert(self@.subrange(0, e as int) =~= self@);
        out
    }

    /// The number of environments.
    pub fn len(&self) -> (r: usize)
        ensures
            r == self@.len(),
    {
        self.environments.len()
    }

    /// The name and the applications of the environment at position `i`.
    pub fn entry(&self, i: usize) -> (r: (&String, &Vec<String>))
        requires
            i < self@.len(),
        ensures
            r.0@ == self@[i as int].0,
            r.1.deep_view() == self@[i as int].1,
    {
        (&self.environments[i].0, &self.environments[i].1)
    }

    /// The position of `app` in the applications of the environment at
    /// position `i`, if it is there.
    pub fn find_app(&self, i: usize, app: &str) -> (r: Option<usize>)
        requires
            i < self@.len(),
        ensures
            match r {
                Some(k) => k < self@[i as int].1.len() && self@[i as int].1[k as int] == app@,
                None => !self@[i as int].1.contains(app@),
            },
    {
        let wanted = app.to_owned();
        let apps = &self.environments[i].1;
        let mut k: usize = 0;
        while k < apps.len()
            invariant
                k <= apps@.len(),
                wanted@ == app@,
                apps.deep_view() == self@[i as int].1,
                forall|j: int| 0 <= j < k ==> #[trigger] apps@[j]@ != app@,
            decreases apps.len() - k,
        {
            if apps[k] == wanted {
                return Some(k);
            }
            k = k + 1;
        }
        assert forall|j: int| 0 <= j < apps.deep_view().len() implies apps.deep_view()[j]
            != app@ by {
            assert(apps@[j]@ != app@);
        }
        None
    }

    /// Appends `app` to the environment at position `i`.
    pub(crate) fn push_app(&mut self, i: usize, app: String)
        requires
            i < old(self)@.len(),
        ensures
            final(self)@ == old(self)@.update(
                i as int,
                (old(self)@[i as int].0, old(self)@[i as int].1.push(app@)),
            ),
    {
        let (name, mut apps) = self.environments.remove(i);
        let ghost before = apps.deep_view();
        apps.push(app);
        assert(apps.deep_view() =~= before.push(app@));
        self.environments.insert(i, (name, apps));
        assert(self@ =~= old(self)@.update(
            i as int,
            (old(self)@[i as int].0, old(self)@[i as int].1.push(app@)),
        ));
    }

    /// Removes the application at position `k` of the environment at position
    /// `i`, keeping the order of the others.
    pub(crate) fn remove_app(&mut self, i: usize, k: usize)
        requires
            i < old(self)@.len(),
            k < old(self)@[i as int].1.len(),
        ensures
            final(self)@ == old(self)@.update(
                i as int,
                (old(self)@[i as int].0, old(self)@[i as int].1.remove(k as int)),
            ),
    {
        let (name, mut apps) = self.environments.remove(i);
        let ghost before = apps.deep_view();
        apps.remove(k);
        assert(apps.deep_view() =~= before.remove(k as int));
        self.environments.insert(i, (name, apps));
        assert(self@ =~= old(self)@.update(
            i as int,
            (old(self)@[i as int].0, old(self)@[i as int].1.remove(k as int)),
        ));
    }
}

} // verus!
