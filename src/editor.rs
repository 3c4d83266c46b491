//! Adding applications to and removing them from an environment.

use vstd::prelude::*;
use crate::config::{Config, ConfigView, config_wf, has_env, env_index, env_names, apps_of};

verus! {

/// An edit that can be asked for.
#[derive(Clone, Copy, Debug, PartialEq, Eq, Structural)]
pub enum EditAction {
    /// Append an application to an environment.
    Add,
    /// Take an application out of an environment.
    Remove,
}

/// What an edit did, or why it did nothing.
#[derive(Clone, Copy, Debug, PartialEq, Eq, Structural)]
pub enum EditOutcome {
    /// The application was appended to the environment.
    Added,
    /// The application was taken out of the environment.
    Removed,
    /// No environment has the given name.
    UnknownEnvironment,
    /// The application is already in the environment.
    AlreadyPresent,
    /// The application is not in the environment.
    NotPresent,
    /// The action is neither "add" nor "remove".
    InvalidAction,
}

impl EditOutcome {
    /// The configuration was changed, so it has to be written back.
    pub open spec fn spec_mutated(self) -> bool {
        self is Added || self is Removed
    }

    /// Whether the configuration was changed, so that it has to be written back.
    pub fn mutated(&self) -> (r: bool)
        ensures
            r == self.spec_mutated(),
    {
        match self {
            EditOutcome::Added | EditOutcome::Removed => true,
            _ => false,
        }
    }
}

/// The action that an action word names.
pub open spec fn parse_action_spec(action: Seq<char>) -> Option<EditAction> {
    if action == "add"@ {
        Some(EditAction::Add)
    } else if action == "remove"@ {
        Some(EditAction::Remove)
    } else {
        None
    }
}

/// Reads an action word: "add" or "remove", nothing else.
pub fn parse_action(action: &str) -> (r: Option<EditAction>)
    ensures
        r == parse_action_spec(action@),
{
    let word = action.to_owned();
    if word == "add".to_owned() {
        Some(EditAction::Add)
    } else if word == "remove".to_owned() {
        Some(EditAction::Remove)
    } else {
        None
    }
}

/// The configuration after an edit, and the outcome. The environment must
/// exist and the action must be known; an add needs the application absent and
/// appends it, a remove needs it present and takes it out, keeping the order of
/// the rest. Every refusal leaves the configuration as it was.
pub open spec fn edit_spec(c: ConfigView, env: Seq<char>, action: Seq<char>, app: Seq<char>) -> (
    ConfigView,
    EditOutcome,
) {
    if !has_env(c, env) {
        (c, EditOutcome::UnknownEnvironment)
    } else {
        let i = env_index(c, env);
        let apps = c[i].1;
        match parse_action_spec(action) {
            Some(EditAction::Add) => if apps.contains(app) {
                (c, EditOutcome::AlreadyPresent)
            } else {
                (c.update(i, (env, apps.push(app))), EditOutcome::Added)
            },
            Some(EditAction::Remove) => if !apps.contains(app) {
                (c, EditOutcome::NotPresent)
            } else {
                (c.update(i, (env, apps.remove(apps.index_of(app)))), EditOutcome::Removed)
            },
            None => (c, EditOutcome::InvalidAction),
        }
    }
}

/// In a list without repeats, an element sits at one position only.
proof fn lemma_index_of_unique(s: Seq<Seq<char>>, x: Seq<char>, k: int)
    requires
        s.no_duplicates(),
        0 <= k < s.len(),
        s[k] == x,
    ensures
        s.index_of(x) == k,
{
    assert(s.contains(x));
}

/// Edits keep a configuration well formed.
pub proof fn lemma_edit_keeps_wf(c: ConfigView, env: Seq<char>, action: Seq<char>, app: Seq<char>)
    requires
        config_wf(c),
    ensures
        config_wf(edit_spec(c, env, action, app).0),
{
    if has_env(c, env) {
        let i = env_index(c, env);
        let apps = c[i].1;
        let c2 = edit_spec(c, env, action, app).0;
        assert(c[i].0 == env);
        assert(env_names(c2) =~= env_names(c)) by {
            assert(env_names(c)[i] == env);
        }
        assert(c[i].1.no_duplicates());
        if parse_action_spec(action) == Some(EditAction::Add) && !apps.contains(app) {
            let n = apps.push(app);
            assert forall|a: int, b: int| 0 <= a < n.len() && 0 <= b < n.len() && a != b implies n[a]
                != n[b] by {
                if a < apps.len() && b < apps.len() {
                    assert(apps[a] != apps[b]);
                }
            }
            assert(c2[i].1.no_duplicates());
        } else if parse_action_spec(action) == Some(EditAction::Remove) && apps.contains(app) {
            let k = apps.index_of(app);
            let n = apps.remove(k);
            assert forall|a: int, b: int| 0 <= a < n.len() && 0 <= b < n.len() && a != b implies n[a]
                != n[b] by {
                let a2 = if a < k { a } else { a + 1 };
                let b2 = if b < k { b } else { b + 1 };
                assert(n[a] == apps[a2]);
                assert(n[b] == apps[b2]);
            }
            assert(c2[i].1.no_duplicates());
        }
        assert forall|j: int| 0 <= j < c2.len() implies (#[trigger] c2[j]).1.no_duplicates() by {
            if j != i {
                assert(c2[j] == c[j]);
            }
        }
    }
}

/// Applies an edit to `config`: `action` is "add" or "remove". The outcome says
/// whether anything changed, and the configuration stays well formed.
pub fn handle_edit_command(config: &mut Config, env: &str, action: &str, app: &str) -> (r:
    EditOutcome)
    requires
        old(config).wf(),
    ensures
        final(config).wf(),
        (final(config)@, r) == edit_spec(old(config)@, env@, action@, app@),
{
    proof {
        lemma_edit_keeps_wf(config@, env@, action@, app@);
    }
    let i = match config.find_environment(env) {
        Some(i) => i,
        None => return EditOutcome::UnknownEnvironment,
    };
    assert(env_names(config@)[i as int] == env@);
    assert(has_env(config@, env@));
    match parse_action(action) {
        Some(EditAction::Add) => match config.find_app(i, app) {
            Some(k) => {
                assert(config@[i as int].1.contains(app@));
                EditOutcome::AlreadyPresent
            },
            None => {
                config.push_app(i, app.to_owned());
                EditOutcome::Added
            },
        },
        Some(EditAction::Remove) => match config.find_app(i, app) {
            Some(k) => {
                proof {
                    lemma_index_of_unique(config@[i as int].1, app@, k as int);
                }
                config.remove_app(i, k);
                EditOutcome::Removed
            },
            None => EditOutcome::NotPresent,
        },
        None => EditOutcome::InvalidAction,
    }
}

/// Adding the same application twice in a row changes nothing the second time:
/// the second add reports no change and leaves the configuration as the first
/// left it.
pub proof fn law_add_twice(c: ConfigView, env: Seq<char>, action: Seq<char>, app: Seq<char>)
    requires
        config_wf(c),
        parse_action_spec(action) == Some(EditAction::Add),
    ensures
        ({
            let (c1, o1) = edit_spec(c, env, action, app);
            let (c2, o2) = edit_spec(c1, env, action, app);
            &&& !o2.spec_mutated()
            &&& o2 is UnknownEnvironment || o2 is AlreadyPresent
            &&& c2 == c1
        }),
{
    let (c1, o1) = edit_spec(c, env, action, app);
    lemma_edit_keeps_wf(c, env, action, app);
    if has_env(c, env) {
        let i = env_index(c, env);
        assert(c[i].0 == env);
        assert(env_names(c)[i] == env);
        assert(c1[i].0 == env);
        crate::config::lemma_env_index_unique(c1, env, i);
        assert(c1[i].1.contains(app)) by {
            if o1 is Added {
                assert(c1[i].1[c[i].1.len() as int] == app);
            }
        }
    }
}

/// Removing an application and adding it back restores its membership, at the
/// end of the list: the others keep their order.
pub proof fn law_remove_then_add(
    c: ConfigView,
    env: Seq<char>,
    remove: Seq<char>,
    add: Seq<char>,
    app: Seq<char>,
)
    requires
        config_wf(c),
        parse_action_spec(remove) == Some(EditAction::Remove),
        parse_action_spec(add) == Some(EditAction::Add),
        has_env(c, env),
        apps_of(c, env).unwrap().contains(app),
    ensures
        ({
            let apps = apps_of(c, env).unwrap();
            let (c1, o1) = edit_spec(c, env, remove, app);
            let (c2, o2) = edit_spec(c1, env, add, app);
            &&& o1 == EditOutcome::Removed
            &&& o2 == EditOutcome::Added
            &&& apps_of(c1, env) == Some(apps.remove(apps.index_of(app)))
            &&& apps_of(c2, env) == Some(apps.remove(apps.index_of(app)).push(app))
            &&& apps_of(c2, env).unwrap().contains(app)
        }),
{
    let i = env_index(c, env);
    let apps = c[i].1;
    let k = apps.index_of(app);
    let (c1, o1) = edit_spec(c, env, remove, app);
    lemma_edit_keeps_wf(c, env, remove, app);
    assert(c[i].0 == env);
    assert(env_names(c)[i] == env);
    crate::config::lemma_env_index_unique(c1, env, i);
    let rest = apps.remove(k);
    assert(!rest.contains(app)) by {
        if rest.contains(app) {
            let j = choose|j: int| 0 <= j < rest.len() && rest[j] == app;
            let j2 = if j < k { j } else { j + 1 };
            assert(apps[j2] == app);
            assert(apps[k] == app);
        }
    }
    let (c2, o2) = edit_spec(c1, env, add, app);
    lemma_edit_keeps_wf(c1, env, add, app);
    crate::config::lemma_env_index_unique(c2, env, i);
    assert(c2[i].1[rest.len() as int] == app);
}

/// An edit naming an environment that does not exist changes nothing and says
/// so, whatever the action and the application.
pub proof fn law_unknown_environment(
    c: ConfigView,
    env: Seq<char>,
    action: Seq<char>,
    app: Seq<char>,
)
    requires
        !has_env(c, env),
    ensures
        edit_spec(c, env, action, app) == (c, EditOutcome::UnknownEnvironment),
{
}

} // verus!
