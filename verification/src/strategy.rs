//! Remediation strategies: data-described build fixes that can be queued,
//! compared and logged, with a mathematical view for contracts.

use vstd::prelude::*;

verus! {

/// One `key = value` pair of a configuration patch.
pub struct ConfigEntry {
    pub key: String,
    pub value: String,
}

/// A remediation action tried after a build failure.
pub enum BuildStrategy {
    Default,
    ToolchainFallback(String),
    ConfigPatch(Vec<ConfigEntry>),
    DependencyResolution(Vec<String>),
    ArchitectureSwitch(String),
    VersionDowngrade(String),
}

/// Mathematical value of a strategy: the same shape over sequences.
pub enum StrategyView {
    Default,
    ToolchainFallback(Seq<char>),
    ConfigPatch(Seq<(Seq<char>, Seq<char>)>),
    DependencyResolution(Seq<Seq<char>>),
    ArchitectureSwitch(Seq<char>),
    VersionDowngrade(Seq<char>),
}

/// Mathematical value of a list of configuration entries.
pub open spec fn entries_view(v: Seq<ConfigEntry>) -> Seq<(Seq<char>, Seq<char>)> {
    v.map_values(|e: ConfigEntry| (e.key@, e.value@))
}

/// Mathematical value of a list of strings.
pub open spec fn strings_view(v: Seq<String>) -> Seq<Seq<char>> {
    v.map_values(|s: String| s@)
}

impl View for BuildStrategy {
    type V = StrategyView;

    open spec fn view(&self) -> StrategyView {
        match self {
            BuildStrategy::Default => StrategyView::Default,
            BuildStrategy::ToolchainFallback(t) => StrategyView::ToolchainFallback(t@),
            BuildStrategy::ConfigPatch(p) => StrategyView::ConfigPatch(entries_view(p@)),
            BuildStrategy::DependencyResolution(d) => StrategyView::DependencyResolution(
                strings_view(d@),
            ),
            BuildStrategy::ArchitectureSwitch(a) => StrategyView::ArchitectureSwitch(a@),
            BuildStrategy::VersionDowngrade(v) => StrategyView::VersionDowngrade(v@),
        }
    }
}

/// Mathematical value of a list of strategies.
pub open spec fn strategies_view(v: Seq<BuildStrategy>) -> Seq<StrategyView> {
    v.map_values(|s: BuildStrategy| s@)
}

fn entries_eq(a: &Vec<ConfigEntry>, b: &Vec<ConfigEntry>) -> (r: bool)
    ensures
        r == (entries_view(a@) == entries_view(b@)),
{
    if a.len() != b.len() {
        proof {
            assert(entries_view(a@).len() != entries_view(b@).len());
        }
        return false;
    }
    let mut i: usize = 0;
    while i < a.len()
        invariant
            a@.len() == b@.len(),
            i <= a@.len(),
            forall|k: int|
                0 <= k < i ==> #[trigger] entries_view(a@)[k] == entries_view(b@)[k],
        decreases a@.len() - i,
    {
        let same = a[i].key == b[i].key && a[i].value == b[i].value;
        if !same {
            proof {
                assert(entries_view(a@)[i as int] == (a@[i as int].key@, a@[i as int].value@));
                assert(entries_view(b@)[i as int] == (b@[i as int].key@, b@[i as int].value@));
            }
            return false;
        }
        proof {
            assert(entries_view(a@)[i as int] == (a@[i as int].key@, a@[i as int].value@));
            assert(entries_view(b@)[i as int] == (b@[i as int].key@, b@[i as int].value@));
        }
        i += 1;
    }
    proof {
        assert(entries_view(a@) =~= entries_view(b@));
    }
    true
}

fn string_vecs_eq(a: &Vec<String>, b: &Vec<String>) -> (r: bool)
    ensures
        r == (strings_view(a@) == strings_view(b@)),
{
    if a.len() != b.len() {
        proof {
            assert(strings_view(a@).len() != strings_view(b@).len());
        }
        return false;
    }
    let mut i: usize = 0;
    while i < a.len()
        invariant
            a@.len() == b@.len(),
            i <= a@.len(),
            forall|k: int|
                0 <= k < i ==> #[trigger] strings_view(a@)[k] == strings_view(b@)[k],
        decreases a@.len() - i,
    {
        if !(a[i] == b[i]) {
            proof {
                assert(strings_view(a@)[i as int] == a@[i as int]@);
                assert(strings_view(b@)[i as int] == b@[i as int]@);
            }
            return false;
        }
        proof {
            assert(strings_view(a@)[i as int] == a@[i as int]@);
            assert(strings_view(b@)[i as int] == b@[i as int]@);
        }
        i += 1;
    }
    proof {
        assert(strings_view(a@) =~= strings_view(b@));
    }
    true
}

/// Position of a strategy's constructor in the declaration order.
pub open spec fn strategy_tag(s: StrategyView) -> int {
    match s {
        StrategyView::Default => 0,
        StrategyView::ToolchainFallback(_) => 1,
        StrategyView::ConfigPatch(_) => 2,
        StrategyView::DependencyResolution(_) => 3,
        StrategyView::ArchitectureSwitch(_) => 4,
        StrategyView::VersionDowngrade(_) => 5,
    }
}

fn tag_of(s: &BuildStrategy) -> (t: u8)
    ensures
        t as int == strategy_tag(s@),
{
    match s {
        BuildStrategy::Default => 0,
        BuildStrategy::ToolchainFallback(_) => 1,
        BuildStrategy::ConfigPatch(_) => 2,
        BuildStrategy::DependencyResolution(_) => 3,
        BuildStrategy::ArchitectureSwitch(_) => 4,
        BuildStrategy::VersionDowngrade(_) => 5,
    }
}

/// Structural equality of two strategies, by their mathematical values.
pub fn strategy_eq(a: &BuildStrategy, b: &BuildStrategy) -> (r: bool)
    ensures
        r == (a@ == b@),
{
    let ta = tag_of(a);
    let tb = tag_of(b);
    if ta != tb {
        proof {
            assert(strategy_tag(a@) != strategy_tag(b@));
        }
        return false;
    }
    match (a, b) {
        (BuildStrategy::Default, BuildStrategy::Default) => true,
        (BuildStrategy::ToolchainFallback(x), BuildStrategy::ToolchainFallback(y)) => crate::text::str_eq(
            x.as_str(),
            y.as_str(),
        ),
        (BuildStrategy::ConfigPatch(x), BuildStrategy::ConfigPatch(y)) => entries_eq(x, y),
        (
            BuildStrategy::DependencyResolution(x),
            BuildStrategy::DependencyResolution(y),
        ) => string_vecs_eq(x, y),
        (BuildStrategy::ArchitectureSwitch(x), BuildStrategy::ArchitectureSwitch(y)) => crate::text::str_eq(
            x.as_str(),
            y.as_str(),
        ),
        (BuildStrategy::VersionDowngrade(x), BuildStrategy::VersionDowngrade(y)) => crate::text::str_eq(
            x.as_str(),
            y.as_str(),
        ),
        _ => {
            proof {
                assert(false);
            }
            false
        },
    }
}

/// A copy of a configuration-entry list with the same mathematical value.
pub fn clone_config_entries(v: &Vec<ConfigEntry>) -> (r: Vec<ConfigEntry>)
    ensures
        entries_view(r@) == entries_view(v@),
{
    let mut out: Vec<ConfigEntry> = Vec::new();
    let mut i: usize = 0;
    while i < v.len()
        invariant
            i <= v@.len(),
            out@.len() == i,
            forall|k: int|
                0 <= k < i ==> #[trigger] entries_view(out@)[k] == entries_view(v@)[k],
        decreases v@.len() - i,
    {
        let e = ConfigEntry { key: v[i].key.clone(), value: v[i].value.clone() };
        let ghost prev = out@;
        out.push(e);
        proof {
            assert forall|k: int| 0 <= k < i + 1 implies #[trigger] entries_view(out@)[k]
                == entries_view(v@)[k] by {
                if k < i {
                    assert(entries_view(prev)[k] == (prev[k].key@, prev[k].value@));
                    assert(out@[k] == prev[k]);
                }
                assert(entries_view(out@)[k] == (out@[k].key@, out@[k].value@));
                assert(entries_view(v@)[k] == (v@[k].key@, v@[k].value@));
            }
        }
        i += 1;
    }
    proof {
        assert(entries_view(out@) =~= entries_view(v@));
    }
    out
}

/// A copy of a string list with the same mathematical value.
pub fn clone_string_vec(v: &Vec<String>) -> (r: Vec<String>)
    ensures
        strings_view(r@) == strings_view(v@),
{
    let mut out: Vec<String> = Vec::new();
    let mut i: usize = 0;
    while i < v.len()
        invariant
            i <= v@.len(),
            out@.len() == i,
            forall|k: int|
                0 <= k < i ==> #[trigger] strings_view(out@)[k] == strings_view(v@)[k],
        decreases v@.len() - i,
    {
        let ghost prev = out@;
        out.push(v[i].clone());
        proof {
            assert forall|k: int| 0 <= k < i + 1 implies #[trigger] strings_view(out@)[k]
                == strings_view(v@)[k] by {
                if k < i {
                    assert(strings_view(prev)[k] == prev[k]@);
                    assert(out@[k] == prev[k]);
                }
                assert(strings_view(out@)[k] == out@[k]@);
                assert(strings_view(v@)[k] == v@[k]@);
            }
        }
        i += 1;
    }
    proof {
        assert(strings_view(out@) =~= strings_view(v@));
    }
    out
}

/// A copy of a strategy with the same mathematical value.
pub fn clone_strategy(s: &BuildStrategy) -> (r: BuildStrategy)
    ensures
        r@ == s@,
{
    match s {
        BuildStrategy::Default => BuildStrategy::Default,
        BuildStrategy::ToolchainFallback(t) => BuildStrategy::ToolchainFallback(t.clone()),
        BuildStrategy::ConfigPatch(p) => BuildStrategy::ConfigPatch(clone_config_entries(p)),
        BuildStrategy::DependencyResolution(d) => BuildStrategy::DependencyResolution(
            clone_string_vec(d),
        ),
        BuildStrategy::ArchitectureSwitch(a) => BuildStrategy::ArchitectureSwitch(a.clone()),
        BuildStrategy::VersionDowngrade(v) => BuildStrategy::VersionDowngrade(v.clone()),
    }
}

/// The per-attempt configuration shape recorded for a successful build.
pub struct BuildConfig {
    pub toolchain: Option<String>,
    pub environment: Vec<ConfigEntry>,
    pub build_flags: Vec<String>,
}

} // verus!
