//! Reports of the applications that cannot be found on the host.

use vstd::prelude::*;
use crate::config::{Config, ConfigView};

verus! {

/// The host found application `a` of environment `e`. An answer that is
/// missing counts as "not found".
pub open spec fn available_at(av: Seq<Seq<bool>>, e: int, a: int) -> bool {
    0 <= e < av.len() && 0 <= a < av[e].len() && av[e][a]
}

/// The (environment, application) pairs among the first `n` applications of
/// environment `e` that the host did not find, in order.
pub open spec fn env_warnings(
    name: Seq<char>,
    apps: Seq<Seq<char>>,
    av: Seq<Seq<bool>>,
    e: int,
    n: int,
) -> Seq<(Seq<char>, Seq<char>)>
    decreases n,
{
    if n <= 0 {
        Seq::empty()
    } else {
        env_warnings(name, apps, av, e, n - 1) + if available_at(av, e, n - 1) {
            Seq::empty()
        } else {
            seq![(name, apps[n - 1])]
        }
    }
}

/// The unavailable pairs of the first `m` environments of `c`, in order.
pub open spec fn config_warnings(c: ConfigView, av: Seq<Seq<bool>>, m: int) -> Seq<
    (Seq<char>, Seq<char>),
>
    decreases m,
{
    if m <= 0 {
        Seq::empty()
    } else {
        config_warnings(c, av, m - 1) + env_warnings(
            c[m - 1].0,
            c[m - 1].1,
            av,
            m - 1,
            c[m - 1].1.len() as int,
        )
    }
}

/// Every (environment, application) pair of `c` that the host did not find,
/// environments in order and applications in order within each.
pub open spec fn unavailable_pairs(c: ConfigView, av: Seq<Seq<bool>>) -> Seq<
    (Seq<char>, Seq<char>),
> {
    config_warnings(c, av, c.len() as int)
}

/// The availability answers as plain values.
pub open spec fn answers(availability: Seq<Vec<bool>>) -> Seq<Seq<bool>> {
    availability.map_values(|v: Vec<bool>| v@)
}

/// An application that an environment lists and the host did not find.
#[derive(Debug)]
pub struct Warning {
    /// The environment that lists the application.
    pub environment: String,
    /// The application identifier.
    pub app: String,
}

/// The outcome of a full scan of a configuration.
#[derive(Debug)]
pub struct ValidationReport {
    /// One entry per unavailable (environment, application) pair.
    pub warnings: Vec<Warning>,
    /// No pair was unavailable.
    pub all_valid: bool,
}

/// The pairs that a list of warnings names.
pub open spec fn warnings_view(w: Seq<Warning>) -> Seq<(Seq<char>, Seq<char>)> {
    w.map_values(|x: Warning| (x.environment@, x.app@))
}

/// Scans every (environment, application) pair of `config`, where
/// `availability[e][a]` says whether the host found application `a` of
/// environment `e`, and reports each pair that it did not find, without
/// stopping at the first.
pub fn validate_config(config: &Config, availability: &Vec<Vec<bool>>) -> (r: ValidationReport)
    ensures
        warnings_view(r.warnings@) == unavailable_pairs(config@, answers(availability@)),
        r.all_valid == (r.warnings@.len() == 0),
{
    let ghost c = config@;
    let ghost av = answers(availability@);
    let mut out: Vec<Warning> = Vec::new();
    let mut e: usize = 0;
    while e < config.len()
        invariant
            c == config@,
            av == answers(availability@),
            e <= c.len(),
            warnings_view(out@) == config_warnings(c, av, e as int),
        decreases c.len() - e,
    {
        let (name, apps) = config.entry(e);
        let mut a: usize = 0;
        while a < apps.len()
            invariant
                c == config@,
                av == answers(availability@),
                e < c.len(),
                name@ == c[e as int].0,
                apps.deep_view() == c[e as int].1,
                a <= apps@.len(),
                warnings_view(out@) == config_warnings(c, av, e as int) + env_warnings(
                    name@,
                    apps.deep_view(),
                    av,
                    e as int,
                    a as int,
                ),
            decreases apps@.len() - a,
        {
            let found = e < availability.len() && a < availability[e].len() && availability[e][a];
            assert(found == available_at(av, e as int, a as int));
            let ghost before = out@;
            if !found {
                out.push(Warning { environment: name.clone(), app: apps[a].clone() });
                assert(warnings_view(out@) =~= warnings_view(before) + seq![
                    (name@, apps.deep_view()[a as int]),
                ]);
            } else {
                assert(out@ == before);
            }
            a = a + 1;
            assert(warnings_view(out@) =~= config_warnings(c, av, e as int) + env_warnings(
                name@,
                apps.deep_view(),
                av,
                e as int,
                a as int,
            ));
        }
        e = e + 1;
    }
    let all_valid = out.len() == 0;
    ValidationReport { warnings: out, all_valid }
}

proof fn lemma_env_warnings_empty(
    name: Seq<char>,
    apps: Seq<Seq<char>>,
    av: Seq<Seq<bool>>,
    e: int,
    n: int,
)
    ensures
        env_warnings(name, apps, av, e, n).len() == 0 <==> forall|a: int|
            0 <= a < n ==> #[trigger] available_at(av, e, a),
    decreases n,
{
    if n > 0 {
        lemma_env_warnings_empty(name, apps, av, e, n - 1);
    }
}

proof fn lemma_config_warnings_empty(c: ConfigView, av: Seq<Seq<bool>>, m: int)
    requires
        m <= c.len(),
    ensures
        config_warnings(c, av, m).len() == 0 <==> forall|e: int, a: int|
            0 <= e < m && 0 <= a < c[e].1.len() ==> #[trigger] available_at(av, e, a),
    decreases m,
{
    if m > 0 {
        lemma_config_warnings_empty(c, av, m - 1);
        lemma_env_warnings_empty(c[m - 1].0, c[m - 1].1, av, m - 1, c[m - 1].1.len() as int);
        if config_warnings(c, av, m).len() != 0 {
            if config_warnings(c, av, m - 1).len() == 0 {
                let a = choose|a: int|
                    0 <= a < c[m - 1].1.len() && !#[trigger] available_at(av, m - 1, a);
                assert(!available_at(av, m - 1, a));
            }
        }
    }
}

/// How many of the first `n` applications of environment `e` the host did not
/// find.
pub open spec fn env_missing_count(av: Seq<Seq<bool>>, e: int, n: int) -> nat
    decreases n,
{
    if n <= 0 {
        0
    } else {
        env_missing_count(av, e, n - 1) + if available_at(av, e, n - 1) {
            0nat
        } else {
            1nat
        }
    }
}

/// How many (environment, application) pairs of the first `m` environments of
/// `c` the host did not find.
pub open spec fn missing_count(c: ConfigView, av: Seq<Seq<bool>>, m: int) -> nat
    decreases m,
{
    if m <= 0 {
        0
    } else {
        missing_count(c, av, m - 1) + env_missing_count(av, m - 1, c[m - 1].1.len() as int)
    }
}

proof fn lemma_env_warnings_count(
    name: Seq<char>,
    apps: Seq<Seq<char>>,
    av: Seq<Seq<bool>>,
    e: int,
    n: int,
)
    ensures
        env_warnings(name, apps, av, e, n).len() == env_missing_count(av, e, n),
    decreases n,
{
    if n > 0 {
        lemma_env_warnings_count(name, apps, av, e, n - 1);
    }
}

proof fn lemma_config_warnings_count(c: ConfigView, av: Seq<Seq<bool>>, m: int)
    requires
        0 <= m <= c.len(),
    ensures
        config_warnings(c, av, m).len() == missing_count(c, av, m),
    decreases m,
{
    if m > 0 {
        lemma_config_warnings_count(c, av, m - 1);
        lemma_env_warnings_count(c[m - 1].0, c[m - 1].1, av, m - 1, c[m - 1].1.len() as int);
    }
}

/// A scan reports exactly as many pairs as the host did not find: one warning
/// for each unavailable (environment, application) pair.
pub proof fn law_one_warning_per_missing_pair(c: ConfigView, av: Seq<Seq<bool>>)
    ensures
        unavailable_pairs(c, av).len() == missing_count(c, av, c.len() as int),
{
    lemma_config_warnings_count(c, av, c.len() as int);
}

/// A scan finds nothing to report exactly when the host found every
/// application of every environment; otherwise it reports at least one pair.
pub proof fn law_all_valid_iff_all_found(c: ConfigView, av: Seq<Seq<bool>>)
    ensures
        unavailable_pairs(c, av).len() == 0 <==> forall|e: int, a: int|
            0 <= e < c.len() && 0 <= a < c[e].1.len() ==> #[trigger] available_at(av, e, a),
{
    lemma_config_warnings_empty(c, av, c.len() as int);
}

} // verus!
