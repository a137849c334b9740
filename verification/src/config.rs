//! Configuration interfaces consumed by the scheduler: the module list
//! (what to run and how many copies), and the command-line surface. The
//! files themselves are parsed outside the library; these types carry the
//! already-parsed values.

use vstd::prelude::*;

use vstd::string::StringExecFns;

verus! {

/// Kind of executable artifact: a WebAssembly module run under a host
/// runtime, or a native binary run directly.
#[derive(Debug, Clone, Copy, PartialEq, Eq, Structural)]
pub enum ModuleKind {
    Wasm32Wasi,
    Native,
}

/// One module-list entry: what to run and how many instances of it.
#[derive(Debug, Clone)]
pub struct ConfigEntry {
    pub kind: ModuleKind,
    pub path: String,
    pub count: usize,
}

/// The module list.
#[derive(Debug, Clone)]
pub struct Config {
    pub entries: Vec<ConfigEntry>,
}

/// Command-line surface: the path of the configuration file.
#[derive(Debug, Clone)]
pub struct Cli {
    pub config: String,
}

impl Default for Cli {
    /// The configuration file is `run.toml` unless one is named.
    fn default() -> (c: Self)
        ensures
            c.config@ == "run.toml"@,
    {
        Cli { config: String::from_str("run.toml") }
    }
}

/// The launch requests one entry gives rise to: its kind and path,
/// repeated once per requested instance.
pub open spec fn repeat_entry(e: ConfigEntry) -> Seq<(ModuleKind, String)> {
    Seq::new(e.count as nat, |i: int| (e.kind, e.path))
}

/// The launch requests of a whole module list, in configuration order.
pub open spec fn plan_of(es: Seq<ConfigEntry>) -> Seq<(ModuleKind, String)>
    decreases es.len(),
{
    if es.len() == 0 {
        Seq::empty()
    } else {
        repeat_entry(es[0]) + plan_of(es.drop_first())
    }
}

proof fn lemma_plan_take(es: Seq<ConfigEntry>, k: int)
    requires
        0 <= k < es.len(),
    ensures
        plan_of(es.take(k + 1)) == plan_of(es.take(k)) + repeat_entry(es[k]),
    decreases k,
{
    if k == 0 {
        assert(es.take(1)[0] == es[0]);
        assert(es.take(1).drop_first() =~= Seq::<ConfigEntry>::empty());
        assert(es.take(0) =~= Seq::<ConfigEntry>::empty());
        assert(plan_of(es.take(1)) =~= plan_of(es.take(0)) + repeat_entry(es[0]));
    } else {
        lemma_plan_take(es.drop_first(), k - 1);
        assert(es.take(k + 1).drop_first() =~= es.drop_first().take(k));
        assert(es.take(k).drop_first() =~= es.drop_first().take(k - 1));
        assert(es.take(k + 1)[0] == es[0]);
        assert(es.take(k)[0] == es[0]);
        assert(es.drop_first()[k - 1] == es[k]);
        assert(plan_of(es.take(k + 1)) == repeat_entry(es[0]) + plan_of(es.drop_first().take(k)));
        assert(plan_of(es.take(k)) == repeat_entry(es[0]) + plan_of(es.drop_first().take(k - 1)));
        assert(plan_of(es.take(k + 1)) =~= plan_of(es.take(k)) + repeat_entry(es[k]));
    }
}

/// Expands the module list into one launch request per instance to start.
pub fn launch_plan(c: &Config) -> (r: Vec<(ModuleKind, String)>)
    ensures
        r@ == plan_of(c.entries@),
{
    let mut out: Vec<(ModuleKind, String)> = Vec::new();
    let mut k: usize = 0;
    while k < c.entries.len()
        invariant
            0 <= k <= c.entries@.len(),
            out@ == plan_of(c.entries@.take(k as int)),
        decreases c.entries@.len() - k,
    {
        let e = &c.entries[k];
        let mut j: usize = 0;
        while j < e.count
            invariant
                0 <= j <= e.count,
                e == c.entries@[k as int],
                0 <= k < c.entries@.len(),
                out@ == plan_of(c.entries@.take(k as int)) + Seq::new(
                    j as nat,
                    |i: int| (e.kind, e.path),
                ),
            decreases e.count - j,
        {
            out.push((e.kind, e.path.clone()));
            proof {
                assert(out@ =~= plan_of(c.entries@.take(k as int)) + Seq::new(
                    (j + 1) as nat,
                    |i: int| (e.kind, e.path),
                ));
            }
            j = j + 1;
        }
        proof {
            assert(Seq::new(e.count as nat, |i: int| (e.kind, e.path)) =~= repeat_entry(
                c.entries@[k as int],
            ));
            lemma_plan_take(c.entries@, k as int);
        }
        k = k + 1;
    }
    proof {
        assert(c.entries@.take(c.entries@.len() as int) =~= c.entries@);
    }
    out
}

} // verus!
