//! Engine configuration: worker entries, instance naming, built-in daemon
//! injection, placeholder expansion and the worker-manager port.

use vstd::prelude::*;
use vstd::string::{StrSliceExecFns, StringExecFns};

use crate::decimal::{decimal, decimal_chars, lemma_decimal_injective};
use crate::env_expand::{expand_with, expansion, resolvable_from, EnvVars};
use crate::sort::{names_of, sorted_distinct, strictly_sorted};
use crate::text::{chars_of, join2, push_char, str_eq};

verus! {

#[verifier::external_type_specification]
#[verifier::external_body]
pub struct ExJsonValue(serde_json::Value);

/// Port the worker manager listens on unless configured otherwise.
pub const DEFAULT_PORT: u16 = 49134;

/// Worker type of the worker manager entry.
pub const WORKER_MANAGER_TYPE: &'static str = "iii-worker-manager";

/// Daemon injected into every configuration when its binary is available.
pub const WORKER_OPS_DAEMON: &'static str = "iii-worker-ops";

#[derive(Debug, Clone)]
pub struct WorkerEntry {
    pub name: String,
    pub image: Option<String>,
    pub config: Option<serde_json::Value>,
}

#[derive(Debug)]
pub struct EngineConfig {
    pub modules: Vec<WorkerEntry>,
    pub workers: Vec<WorkerEntry>,
}

/// The part of `name` before its first `#` (all of it when there is none).
pub open spec fn base_name(name: Seq<char>) -> Seq<char>
    decreases name.len(),
{
    if name.len() == 0 {
        name
    } else if name[0] == '#' {
        Seq::empty()
    } else {
        seq![name[0]] + base_name(name.drop_first())
    }
}

proof fn lemma_base_name_prefix(name: Seq<char>, i: int)
    requires
        0 <= i <= name.len(),
        forall|k: int| 0 <= k < i ==> name[k] != '#',
    ensures
        base_name(name) == name.subrange(0, i) + base_name(name.subrange(i, name.len() as int)),
    decreases i,
{
    if i > 0 {
        lemma_base_name_prefix(name.drop_first(), i - 1);
        assert(name.drop_first().subrange(0, i - 1) == name.subrange(1, i));
        assert(name.drop_first().subrange(i - 1, name.len() - 1) == name.subrange(
            i,
            name.len() as int,
        ));
        assert(seq![name[0]] + name.subrange(1, i) == name.subrange(0, i));
    } else {
        assert(name.subrange(0, 0) == Seq::<char>::empty());
        assert(name.subrange(0, name.len() as int) == name);
    }
}

impl WorkerEntry {
    /// The worker type name used for factory lookup: the entry name with any
    /// `#N` instance suffix stripped (`iii-http#1` gives `iii-http`).
    pub fn worker_type(&self) -> (t: &str)
        ensures
            t@ == base_name(self.name@),
    {
        let cs = chars_of(self.name.as_str());
        let mut k: usize = 0;
        while k < cs.len() && cs[k] != '#'
            invariant
                k <= cs.len(),
                cs@ == self.name@,
                forall|j: int| 0 <= j < k ==> cs@[j] != '#',
            decreases cs.len() - k,
        {
            k += 1;
        }
        proof {
            lemma_base_name_prefix(cs@, k as int);
            let rest = cs@.subrange(k as int, cs@.len() as int);
            if k < cs.len() {
                assert(rest[0] == '#');
            } else {
                assert(rest.len() == 0);
            }
            assert(cs@.subrange(0, k as int) + Seq::<char>::empty() == cs@.subrange(0, k as int));
        }
        self.name.as_str().substring_char(0, k)
    }
}


/// The names of a list of entries.
pub open spec fn entry_names(es: Seq<WorkerEntry>) -> Seq<Seq<char>> {
    es.map_values(|e: WorkerEntry| e.name@)
}

/// How many times `x` occurs in `s`.
pub open spec fn count_eq(s: Seq<Seq<char>>, x: Seq<char>) -> nat
    decreases s.len(),
{
    if s.len() == 0 {
        0
    } else {
        count_eq(s.drop_last(), x) + if s.last() == x {
            1nat
        } else {
            0nat
        }
    }
}

/// How many entries before index `i` carry the same name as entry `i`.
pub open spec fn occurrences_before(names: Seq<Seq<char>>, i: int) -> nat {
    count_eq(names.take(i), names[i])
}

/// The name entry `i` gets: unchanged for the first occurrence of a name,
/// `name#k` for its `k`-th repetition.
pub open spec fn instance_name(names: Seq<Seq<char>>, i: int) -> Seq<char> {
    let c = occurrences_before(names, i);
    if c == 0 {
        names[i]
    } else {
        names[i] + seq!['#'] + decimal(c)
    }
}

proof fn lemma_count_le(s: Seq<Seq<char>>, x: Seq<char>)
    ensures
        count_eq(s, x) <= s.len(),
    decreases s.len(),
{
    if s.len() > 0 {
        lemma_count_le(s.drop_last(), x);
    }
}

/// Assigns unique instance ids to entries with duplicate names. The first
/// occurrence keeps its name; later ones get `#1`, `#2`, ... appended.
pub fn assign_instance_ids(entries: &mut Vec<WorkerEntry>)
    ensures
        final(entries)@.len() == old(entries)@.len(),
        forall|i: int|
            0 <= i < old(entries)@.len() ==> {
                &&& (#[trigger] final(entries)@[i]).name@ == instance_name(
                    entry_names(old(entries)@),
                    i,
                )
                &&& final(entries)@[i].image == old(entries)@[i].image
                &&& final(entries)@[i].config == old(entries)@[i].config
            },
{
    let ghost names = entry_names(entries@);
    let ghost start = entries@;
    let mut given_names: Vec<String> = Vec::new();
    let mut k: usize = 0;
    while k < entries.len()
        invariant
            k <= entries.len(),
            entries@ == start,
            names == entry_names(start),
            given_names@.len() == k,
            forall|j: int| 0 <= j < k ==> (#[trigger] given_names@[j])@ == names[j],
        decreases entries.len() - k,
    {
        given_names.push(entries[k].name.clone());
        k += 1;
    }
    let mut i: usize = 0;
    while i < entries.len()
        invariant
            i <= entries.len(),
            entries@.len() == start.len(),
            given_names@.len() == start.len(),
            names == entry_names(start),
            forall|j: int| 0 <= j < start.len() ==> (#[trigger] given_names@[j])@ == names[j],
            forall|j: int|
                0 <= j < i ==> {
                    &&& (#[trigger] entries@[j]).name@ == instance_name(names, j)
                    &&& entries@[j].image == start[j].image
                    &&& entries@[j].config == start[j].config
                },
            forall|j: int| i <= j < start.len() ==> #[trigger] entries@[j] == start[j],
        decreases entries.len() - i,
    {
        let mut count: usize = 0;
        let mut j: usize = 0;
        while j < i
            invariant
                j <= i < given_names@.len(),
                given_names@.len() == start.len(),
                names == entry_names(start),
                forall|m: int| 0 <= m < start.len() ==> (#[trigger] given_names@[m])@ == names[m],
                count == count_eq(names.take(j as int), names[i as int]),
                count <= j,
            decreases i - j,
        {
            assert(names.take(j as int + 1).drop_last() == names.take(j as int));
            if given_names[j] == given_names[i] {
                count += 1;
            }
            j += 1;
        }
        if count > 0 {
            let mut name = given_names[i].clone();
            push_char(&mut name, '#');
            let digits = decimal_chars(count as u64);
            let mut d: usize = 0;
            let ghost head = name@;
            while d < digits.len()
                invariant
                    d <= digits.len(),
                    name@ == head + digits@.take(d as int),
                decreases digits.len() - d,
            {
                push_char(&mut name, digits[d]);
                assert(digits@.take(d as int + 1) == digits@.take(d as int).push(digits@[d as int]));
                d += 1;
            }
            assert(digits@.take(digits.len() as int) == digits@);
            entries[i].name = name;
        }
        i += 1;
    }
}


proof fn lemma_count_take_mono(s: Seq<Seq<char>>, x: Seq<char>, a: int, b: int)
    requires
        0 <= a <= b <= s.len(),
    ensures
        count_eq(s.take(a), x) <= count_eq(s.take(b), x),
        a < b && s[a] == x ==> count_eq(s.take(a), x) < count_eq(s.take(b), x),
    decreases b - a,
{
    if a < b {
        lemma_count_take_mono(s, x, a, b - 1);
        assert(s.take(b).drop_last() == s.take(b - 1));
        if a == b - 1 {
            assert(s.take(b).last() == s[a]);
        }
    }
}

/// Whether a name contains no `#`.
pub open spec fn hash_free(name: Seq<char>) -> bool {
    forall|k: int| 0 <= k < name.len() ==> name[k] != '#'
}

/// Instance naming makes names unique: when no given name holds a `#`,
/// the names given to any two entries differ.
pub proof fn instance_names_are_distinct(names: Seq<Seq<char>>, i: int, j: int)
    requires
        0 <= i < j < names.len(),
        forall|k: int| 0 <= k < names.len() ==> hash_free(#[trigger] names[k]),
    ensures
        instance_name(names, i) != instance_name(names, j),
{
    let ni = names[i];
    let nj = names[j];
    assert(hash_free(ni));
    assert(hash_free(nj));
    let ci = occurrences_before(names, i);
    let cj = occurrences_before(names, j);
    let a = instance_name(names, i);
    let b = instance_name(names, j);
    if ni == nj {
        lemma_count_take_mono(names, ni, i, j);
        assert(ci < cj);
        if a == b {
            if ci == 0 {
                assert(b.len() > nj.len());
            } else {
                assert(a.subrange(ni.len() as int + 1, a.len() as int) == decimal(ci));
                assert(b.subrange(nj.len() as int + 1, b.len() as int) == decimal(cj));
                lemma_decimal_injective(ci, cj);
            }
        }
    } else if a == b {
        if ci == 0 && cj == 0 {
        } else if ci == 0 {
            assert(b[nj.len() as int] == '#');
            assert(a[nj.len() as int] != '#');
        } else if cj == 0 {
            assert(a[ni.len() as int] == '#');
            assert(b[ni.len() as int] != '#');
        } else if ni.len() < nj.len() {
            assert(a[ni.len() as int] == '#');
            assert(b[ni.len() as int] == nj[ni.len() as int]);
        } else if nj.len() < ni.len() {
            assert(b[nj.len() as int] == '#');
            assert(a[nj.len() as int] == ni[nj.len() as int]);
        } else {
            assert(a.subrange(0, ni.len() as int) == ni);
            assert(b.subrange(0, nj.len() as int) == nj);
        }
    }
}


/// Whether the worker-ops daemon already appears among the entries.
pub open spec fn daemon_listed(workers: Seq<WorkerEntry>, modules: Seq<WorkerEntry>) -> bool {
    ||| exists|k: int| 0 <= k < workers.len() && (#[trigger] workers[k]).name@ == WORKER_OPS_DAEMON@
    ||| exists|k: int| 0 <= k < modules.len() && (#[trigger] modules[k]).name@ == WORKER_OPS_DAEMON@
}

/// How injection changes the worker list: nothing when injection is
/// disabled, the daemon's binary is missing or the daemon is already
/// listed; otherwise one bare daemon entry is appended.
pub open spec fn daemons_ensured(
    workers: Seq<WorkerEntry>,
    modules: Seq<WorkerEntry>,
    new_workers: Seq<WorkerEntry>,
    disabled: bool,
    binary_found: bool,
) -> bool {
    if disabled || !binary_found || daemon_listed(workers, modules) {
        new_workers == workers
    } else {
        &&& new_workers.len() == workers.len() + 1
        &&& new_workers.take(workers.len() as int) == workers
        &&& new_workers.last().name@ == WORKER_OPS_DAEMON@
        &&& new_workers.last().image is None
        &&& new_workers.last().config is None
    }
}

fn any_named(es: &Vec<WorkerEntry>, name: &String) -> (r: bool)
    ensures
        r == exists|k: int| 0 <= k < es@.len() && (#[trigger] es@[k]).name@ == name@,
{
    let mut k: usize = 0;
    while k < es.len()
        invariant
            k <= es.len(),
            forall|j: int| 0 <= j < k ==> (#[trigger] es@[j]).name@ != name@,
        decreases es.len() - k,
    {
        if es[k].name == *name {
            return true;
        }
        k += 1;
    }
    false
}

impl EngineConfig {
    /// Inject the always-on daemons (the `iii-worker-ops` daemon) unless
    /// injection is disabled (`disabled`, from `IIIWORKER_DISABLE_BUILTIN_DAEMONS`),
    /// the daemon's binary cannot be found (`binary_found`), or it is
    /// already listed.
    pub fn ensure_builtin_daemons(&mut self, disabled: bool, binary_found: bool)
        ensures
            final(self).modules@ == old(self).modules@,
            daemons_ensured(
                old(self).workers@,
                old(self).modules@,
                final(self).workers@,
                disabled,
                binary_found,
            ),
    {
        if disabled {
            return;
        }
        let name = String::from_str(WORKER_OPS_DAEMON);
        let already_listed = any_named(&self.workers, &name) || any_named(&self.modules, &name);
        if already_listed || !binary_found {
            return;
        }
        let ghost before = self.workers@;
        self.workers.push(WorkerEntry { name, image: None, config: None });
        assert(self.workers@.take(before.len() as int) == before);
    }

    /// Expand `${VAR}` / `${VAR:default}` placeholders in configuration
    /// text. `engine_version` replaces the `__III_ENGINE_VERSION__` default.
    /// Every placeholder must resolve (see [`EngineConfig::unresolved_env_var`]).
    pub fn expand_env_vars(yaml_content: &str, env: &EnvVars, engine_version: &str) -> (r: String)
        requires
            resolvable_from(yaml_content@, 0, *env),
        ensures
            r@ == expansion(yaml_content@, *env, engine_version@),
    {
        expand_with(yaml_content, env, engine_version)
    }

    /// The name of the first placeholder in `yaml_content` that is neither
    /// set in `env` nor given a default.
    pub fn unresolved_env_var(yaml_content: &str, env: &EnvVars) -> (r: Option<String>)
        ensures
            r is None <==> resolvable_from(yaml_content@, 0, *env),
    {
        crate::env_expand::find_unresolved(yaml_content, env)
    }
}

/// Injecting the built-in daemons is idempotent: a second injection with
/// the same inputs changes nothing.
pub proof fn builtin_daemon_injection_is_idempotent(
    w0: Seq<WorkerEntry>,
    w1: Seq<WorkerEntry>,
    w2: Seq<WorkerEntry>,
    modules: Seq<WorkerEntry>,
    disabled: bool,
    binary_found: bool,
)
    requires
        daemons_ensured(w0, modules, w1, disabled, binary_found),
        daemons_ensured(w1, modules, w2, disabled, binary_found),
    ensures
        w2 == w1,
{
    if !(disabled || !binary_found || daemon_listed(w0, modules)) {
        let k = w1.len() - 1;
        assert(w1[k].name@ == WORKER_OPS_DAEMON@);
        assert(daemon_listed(w1, modules));
    }
}

/// The port setting after recording `port`: the first recorded port stays.
pub open spec fn port_after_set(setting: Option<u16>, port: u16) -> Option<u16> {
    match setting {
        None => Some(port),
        Some(p) => Some(p),
    }
}

/// The worker-manager port is set at most once: recording a second port
/// changes nothing, so an engine that recorded `first` and then `second`
/// reports `first`.
pub proof fn first_recorded_port_wins(setting: Option<u16>, first: u16, second: u16)
    ensures
        port_after_set(port_after_set(setting, first), second) == port_after_set(setting, first),
        port_after_set(port_after_set(None, first), second) == Some(first),
{
}

/// The engine's record of the worker-manager port: set at most once.
#[derive(Debug)]
pub struct Engine {
    worker_manager_port: Option<u16>,
}

impl Engine {
    /// The port that was set, if any.
    pub closed spec fn port_setting(self) -> Option<u16> {
        self.worker_manager_port
    }

    pub fn new() -> (e: Engine)
        ensures
            e.port_setting() is None,
    {
        Engine { worker_manager_port: None }
    }

    /// Record the worker-manager port. The first call wins; later calls
    /// change nothing.
    pub fn set_worker_manager_port(&mut self, port: u16)
        ensures
            final(self).port_setting() == port_after_set(old(self).port_setting(), port),
    {
        if self.worker_manager_port.is_none() {
            self.worker_manager_port = Some(port);
        }
    }

    /// The recorded port, or [`DEFAULT_PORT`] when none was set.
    pub fn worker_manager_port(&self) -> (p: u16)
        ensures
            p == match self.port_setting() {
                Some(q) => q,
                None => DEFAULT_PORT,
            },
    {
        match self.worker_manager_port {
            Some(p) => p,
            None => DEFAULT_PORT,
        }
    }
}

/// Index of the first worker-manager entry at or after `k` whose
/// configuration parses (`parsed_ports[i]` is its port when it does).
pub open spec fn first_parsed_manager_from(
    workers: Seq<WorkerEntry>,
    parsed_ports: Seq<Option<u16>>,
    k: int,
) -> Option<int>
    decreases workers.len() - k,
{
    if k < 0 || k >= workers.len() {
        None
    } else if base_name(workers[k].name@) == WORKER_MANAGER_TYPE@ && parsed_ports[k] is Some {
        Some(k)
    } else {
        first_parsed_manager_from(workers, parsed_ports, k + 1)
    }
}

/// The port the engine resolves: that of the first worker-manager entry
/// whose configuration parses, otherwise [`DEFAULT_PORT`] (no such entry,
/// or none whose configuration has the expected shape).
pub open spec fn resolved_port(workers: Seq<WorkerEntry>, parsed_ports: Seq<Option<u16>>) -> u16 {
    match first_parsed_manager_from(workers, parsed_ports, 0) {
        Some(k) => parsed_ports[k]->0,
        None => DEFAULT_PORT,
    }
}

/// Resolve the effective worker-manager port before workers are created.
/// `parsed_ports[k]` is the port of entry `k`'s configuration when that
/// configuration parses as worker-manager configuration.
pub fn resolve_worker_manager_port(workers: &Vec<WorkerEntry>, parsed_ports: &Vec<Option<u16>>) -> (p: u16)
    requires
        workers.len() == parsed_ports.len(),
    ensures
        p == resolved_port(workers@, parsed_ports@),
{
    let mut k: usize = 0;
    while k < workers.len()
        invariant
            k <= workers.len() == parsed_ports.len(),
            first_parsed_manager_from(workers@, parsed_ports@, 0) == first_parsed_manager_from(
                workers@,
                parsed_ports@,
                k as int,
            ),
        decreases workers.len() - k,
    {
        let t = workers[k].worker_type();
        if str_eq(t, WORKER_MANAGER_TYPE) {
            match parsed_ports[k] {
                Some(p) => {
                    return p;
                },
                None => {},
            }
        }
        k += 1;
    }
    DEFAULT_PORT
}


/// The mandatory names that are not already present, in order.
pub open spec fn missing_from(mandatory: Seq<Seq<char>>, present: Seq<Seq<char>>) -> Seq<Seq<char>>
    decreases mandatory.len(),
{
    if mandatory.len() == 0 {
        Seq::empty()
    } else {
        let rest = missing_from(mandatory.drop_last(), present);
        if present.contains(mandatory.last()) {
            rest
        } else {
            rest.push(mandatory.last())
        }
    }
}

/// The names of the workers the engine builds, before instance naming:
/// workers, then modules, then every mandatory worker not already listed.
pub open spec fn planned_names(
    workers: Seq<WorkerEntry>,
    modules: Seq<WorkerEntry>,
    mandatory: Seq<Seq<char>>,
) -> Seq<Seq<char>> {
    entry_names(workers + modules) + missing_from(mandatory, entry_names(workers + modules))
}

impl EngineConfig {
    /// The entries the engine builds: workers, then modules, then each
    /// mandatory worker (names in `mandatory`) not already listed, with
    /// instance ids assigned to repeated names.
    pub fn build_entries(self, mandatory: &Vec<String>) -> (r: Vec<WorkerEntry>)
        ensures
            r@.len() == planned_names(self.workers@, self.modules@, mandatory@.map_values(
                |m: String| m@,
            )).len(),
            forall|i: int|
                0 <= i < r@.len() ==> (#[trigger] r@[i]).name@ == instance_name(
                    planned_names(
                        self.workers@,
                        self.modules@,
                        mandatory@.map_values(|m: String| m@),
                    ),
                    i,
                ),
    {
        let ghost w0 = self.workers@;
        let ghost m0 = self.modules@;
        let ghost mand = mandatory@.map_values(|m: String| m@);
        let mut workers = self.workers;
        let mut modules = self.modules;
        workers.append(&mut modules);
        assert(workers@ == w0 + m0);
        let ghost present = entry_names(w0 + m0);
        let combined_len = workers.len();
        let mut k: usize = 0;
        while k < mandatory.len()
            invariant
                k <= mandatory.len(),
                combined_len == (w0 + m0).len(),
                mand == mandatory@.map_values(|m: String| m@),
                present == entry_names(w0 + m0),
                workers@.len() == combined_len + missing_from(mand.take(k as int), present).len(),
                workers@.take(combined_len as int) == w0 + m0,
                entry_names(workers@) == present + missing_from(mand.take(k as int), present),
            decreases mandatory.len() - k,
        {
            assert(mand.take(k as int + 1).drop_last() == mand.take(k as int));
            assert(mand.take(k as int + 1).last() == mandatory@[k as int]@);
            let mut found = false;
            let mut j: usize = 0;
            while j < combined_len
                invariant
                    j <= combined_len <= workers@.len(),
                    workers@.take(combined_len as int) == w0 + m0,
                    present == entry_names(w0 + m0),
                    k < mandatory.len(),
                    found == exists|q: int| 0 <= q < j && present[q] == mandatory@[k as int]@,
                decreases combined_len - j,
            {
                assert(workers@[j as int] == workers@.take(combined_len as int)[j as int]);
                assert(present[j as int] == workers@[j as int].name@);
                if workers[j].name == mandatory[k] {
                    found = true;
                }
                assert(found == exists|q: int| 0 <= q < j + 1 && present[q] == mandatory@[k as int]@);
                j += 1;
            }
            assert(found == present.contains(mandatory@[k as int]@));
            if !found {
                let ghost before = workers@;
                workers.push(WorkerEntry { name: mandatory[k].clone(), image: None, config: None });
                assert(workers@.take(combined_len as int) == before.take(combined_len as int));
                assert(entry_names(workers@) == entry_names(before).push(mandatory@[k as int]@));
            }
            k += 1;
        }
        assert(mand.take(mandatory.len() as int) == mand);
        assign_instance_ids(&mut workers);
        workers
    }
}

/// What the engine's serve loop is woken by.
#[derive(Debug, Clone, Copy, PartialEq, Eq, Structural)]
pub enum ServeEvent {
    /// The global shutdown flag changed to this value.
    ShutdownChanged(bool),
    /// The watched configuration file changed.
    ConfigChanged,
    /// A reload finished: successfully (`true`) or with an error.
    ReloadFinished(bool),
}

/// What the serve loop does next.
#[derive(Debug, Clone, Copy, PartialEq, Eq, Structural)]
pub enum ServeAction {
    KeepServing,
    /// Wait for writes to settle, then reload the configuration.
    Reload,
    /// Leave the loop and tear the engine down.
    Stop,
}

/// The serve loop's step for an event: stop once shutdown is requested or
/// a reload failed (the failure is reported after teardown), reload on a
/// configuration change, otherwise keep serving.
pub fn serve_step(event: ServeEvent) -> (r: ServeAction)
    ensures
        event == ServeEvent::ShutdownChanged(true) ==> r == ServeAction::Stop,
        event == ServeEvent::ShutdownChanged(false) ==> r == ServeAction::KeepServing,
        event == ServeEvent::ConfigChanged ==> r == ServeAction::Reload,
        event == ServeEvent::ReloadFinished(true) ==> r == ServeAction::KeepServing,
        event == ServeEvent::ReloadFinished(false) ==> r == ServeAction::Stop,
{
    match event {
        ServeEvent::ShutdownChanged(true) => ServeAction::Stop,
        ServeEvent::ShutdownChanged(false) => ServeAction::KeepServing,
        ServeEvent::ConfigChanged => ServeAction::Reload,
        ServeEvent::ReloadFinished(true) => ServeAction::KeepServing,
        ServeEvent::ReloadFinished(false) => ServeAction::Stop,
    }
}

/// The kind of a file-system event reported by the configuration watcher.
#[derive(Debug, Clone, Copy, PartialEq, Eq, Structural)]
pub enum FsEventKind {
    Any,
    Access,
    Create,
    Modify,
    Remove,
    Other,
}

/// Whether a watcher report asks for a reload (`None` is a watcher
/// error): a creation, modification or removal does; anything else does
/// not.
pub fn event_requests_reload(event: Option<FsEventKind>) -> (r: bool)
    ensures
        r == (event == Some(FsEventKind::Create) || event == Some(FsEventKind::Modify) || event == Some(
            FsEventKind::Remove,
        )),
{
    match event {
        Some(FsEventKind::Create) | Some(FsEventKind::Modify) | Some(FsEventKind::Remove) => true,
        _ => false,
    }
}

/// What `std::path::Path::parent` gives for a path, as text.
pub uninterp spec fn path_parent(path: Seq<char>) -> Option<Seq<char>>;

/// `std::path::Path::parent`, converted to a `String`. The parent is named,
/// not described: it depends on `path` alone.
#[verifier::external_body]
fn parent_of(path: &str) -> (r: Option<String>)
    ensures
        r is Some <==> path_parent(path@) is Some,
        r matches Some(p) ==> path_parent(path@) == Some(p@),
{
    std::path::Path::new(path).parent().and_then(|p| p.to_str()).map(String::from)
}

/// The directory watched for changes of the configuration file at `path`:
/// its parent, so that rename-based writes are seen; `.` when the path has
/// no parent or an empty one (a bare file name).
pub fn watch_target(path: &str) -> (r: String)
    ensures
        match path_parent(path@) {
            Some(p) => if p.len() > 0 {
                r@ == p
            } else {
                r@ == "."@
            },
            None => r@ == "."@,
        },
{
    match parent_of(path) {
        Some(p) => {
            if !p.as_str().is_empty() {
                p
            } else {
                String::from_str(".")
            }
        },
        None => String::from_str("."),
    }
}

/// The workers whose background tasks failed to start (`started[i]` is
/// whether worker `i`'s did), in running order: their runtime entries are
/// removed, and serving goes on with the others.
pub open spec fn failed_starts(started: Seq<bool>) -> Seq<usize>
    decreases started.len(),
{
    if started.len() == 0 {
        Seq::empty()
    } else if started.last() {
        failed_starts(started.drop_last())
    } else {
        failed_starts(started.drop_last()).push((started.len() - 1) as usize)
    }
}

/// The workers to drop from the runtime table after starting every
/// worker's background tasks.
pub fn start_failures(started: &Vec<bool>) -> (r: Vec<usize>)
    ensures
        r@ == failed_starts(started@),
{
    let mut r: Vec<usize> = Vec::new();
    let mut i: usize = 0;
    while i < started.len()
        invariant
            i <= started.len(),
            r@ == failed_starts(started@.take(i as int)),
        decreases started.len() - i,
    {
        assert(started@.take(i as int + 1).drop_last() == started@.take(i as int));
        if !started[i] {
            r.push(i);
        }
        i += 1;
    }
    assert(started@.take(started.len() as int) == started@);
    r
}

/// One step of tearing a running worker down.
#[derive(Debug, Clone, Copy, PartialEq, Eq, Structural)]
pub enum TeardownKind {
    /// Signal the worker's own shutdown channel.
    Signal,
    /// Call the worker's `destroy`.
    Destroy,
    /// Remove the functions and triggers it registered.
    RemoveRegistrations,
    /// Remove its runtime entry.
    RemoveRuntime,
}

/// The `j`-th step (0 to 3) of one worker's teardown.
pub open spec fn teardown_kind(j: int) -> TeardownKind {
    if j == 0 {
        TeardownKind::Signal
    } else if j == 1 {
        TeardownKind::Destroy
    } else if j == 2 {
        TeardownKind::RemoveRegistrations
    } else {
        TeardownKind::RemoveRuntime
    }
}

/// The teardown of `n` running workers: each in running order gets all
/// four steps, whatever an earlier worker's `destroy` gave (the first
/// failure is reported afterwards by [`destroy_outcome`]).
pub fn teardown_plan(n: usize) -> (r: Vec<(TeardownKind, usize)>)
    requires
        n <= usize::MAX / 4,
    ensures
        r@.len() == 4 * n,
        forall|k: int| 0 <= k < 4 * n ==> #[trigger] r@[k] == (teardown_kind(k % 4), (k / 4) as usize),
{
    let mut r: Vec<(TeardownKind, usize)> = Vec::new();
    let mut i: usize = 0;
    while i < n
        invariant
            i <= n <= usize::MAX / 4,
            r@.len() == 4 * i,
            forall|k: int| 0 <= k < 4 * i ==> #[trigger] r@[k] == (teardown_kind(k % 4), (k / 4) as usize),
        decreases n - i,
    {
        r.push((TeardownKind::Signal, i));
        r.push((TeardownKind::Destroy, i));
        r.push((TeardownKind::RemoveRegistrations, i));
        r.push((TeardownKind::RemoveRuntime, i));
        assert forall|k: int| 0 <= k < 4 * (i + 1) implies #[trigger] r@[k] == (
            teardown_kind(k % 4),
            (k / 4) as usize,
        ) by {
            if k >= 4 * i {
                assert(k / 4 == i as int);
                assert(k % 4 == k - 4 * i);
            }
        }
        i += 1;
    }
    r
}

/// The error of the first worker whose teardown failed, if any.
pub open spec fn first_failure(results: Seq<(String, Result<(), String>)>, i: int) -> Option<(Seq<char>, Seq<char>)>
    decreases results.len() - i,
{
    if i < 0 || i >= results.len() {
        None
    } else {
        match results[i].1 {
            Err(e) => Some((results[i].0@, e@)),
            Ok(()) => first_failure(results, i + 1),
        }
    }
}

/// The outcome of tearing the workers down (`results` holds each worker's
/// name and how its teardown went, in teardown order): the first failure,
/// as `failed to destroy worker '<name>': <error>`; success otherwise.
pub fn destroy_outcome(results: &Vec<(String, Result<(), String>)>) -> (r: Result<(), String>)
    ensures
        match first_failure(results@, 0) {
            None => r is Ok,
            Some((name, err)) => r matches Err(m) && m@ == "failed to destroy worker '"@ + name + "': "@ + err,
        },
{
    let mut i: usize = 0;
    while i < results.len()
        invariant
            i <= results@.len(),
            first_failure(results@, 0) == first_failure(results@, i as int),
        decreases results.len() - i,
    {
        match &results[i].1 {
            Err(e) => {
                let m = crate::text::join2("failed to destroy worker '", results[i].0.as_str());
                let m = m.concat("': ");
                return Err(m.concat(e.as_str()));
            },
            Ok(()) => {},
        }
        i += 1;
    }
    Ok(())
}

/// How serving ends: a teardown failure first, then the reload failure
/// that stopped the loop, otherwise success.
pub fn serve_result(destroy: Result<(), String>, reload_error: Option<String>) -> (r: Result<(), String>)
    ensures
        destroy matches Err(e) ==> r == Err::<(), String>(e),
        destroy is Ok ==> (reload_error matches Some(e) ==> r == Err::<(), String>(e)),
        destroy is Ok ==> (reload_error is None ==> r is Ok),
{
    match destroy {
        Err(e) => Err(e),
        Ok(()) => match reload_error {
            Some(e) => Err(e),
            None => Ok(()),
        },
    }
}

/// Where a worker comes from.
#[derive(Debug, Clone, Copy, PartialEq, Eq, Structural)]
pub enum WorkerSource {
    /// A factory of the engine's own registry.
    BuiltIn,
    /// A legacy external worker found through the project's manifest.
    LegacyExternal,
    /// Handed to `iii-worker start`, which finds, fetches and spawns it.
    Delegated,
}

/// How a worker is created: a built-in worker may not name an image; a
/// worker without an image is built in when the registry has it, else a
/// legacy external worker when one is found; everything else is
/// delegated.
pub fn worker_source(name: &str, has_image: bool, is_builtin: bool, external_found: bool) -> (r: Result<WorkerSource, String>)
    ensures
        has_image && is_builtin ==> (r matches Err(m) && m@ == "Worker '"@ + name@
            + "' is a built-in worker and cannot have an 'image' field. Remove 'image' or use a different name."@),
        has_image && !is_builtin ==> r == Ok::<WorkerSource, String>(WorkerSource::Delegated),
        !has_image && is_builtin ==> r == Ok::<WorkerSource, String>(WorkerSource::BuiltIn),
        !has_image && !is_builtin && external_found ==> r == Ok::<WorkerSource, String>(WorkerSource::LegacyExternal),
        !has_image && !is_builtin && !external_found ==> r == Ok::<WorkerSource, String>(WorkerSource::Delegated),
{
    if has_image {
        if is_builtin {
            return Err(join2("Worker '", name).concat(
                "' is a built-in worker and cannot have an 'image' field. Remove 'image' or use a different name.",
            ));
        }
        return Ok(WorkerSource::Delegated);
    }
    if is_builtin {
        Ok(WorkerSource::BuiltIn)
    } else if external_found {
        Ok(WorkerSource::LegacyExternal)
    } else {
        Ok(WorkerSource::Delegated)
    }
}

/// The error of an entry whose worker could not be created.
pub fn create_failure(entry_name: &str, reason: &str) -> (r: String)
    ensures
        r@ == "Failed to create "@ + entry_name@ + ": "@ + reason@,
{
    join2("Failed to create ", entry_name).concat(": ").concat(reason)
}

/// What the engine records about an in-process worker once it has
/// registered its functions.
#[derive(Debug, Clone)]
pub struct RuntimeWorkerSummary {
    /// The entry's name (with its instance suffix).
    pub id: String,
    /// The worker type.
    pub name: String,
    pub worker_type: String,
    /// The functions it registered, each once, in text order.
    pub function_ids: Vec<String>,
    /// Whether the worker is one of the engine's mandatory workers.
    pub internal: bool,
}

/// The record of a worker after it registered `function_ids` (none for a
/// worker running as an external process); `mandatory` names the
/// mandatory worker types.
pub fn runtime_worker_summary(entry: &WorkerEntry, is_external_process: bool, function_ids: &Vec<String>, mandatory: &Vec<String>) -> (r: Option<RuntimeWorkerSummary>)
    ensures
        is_external_process ==> r is None,
        !is_external_process ==> (r matches Some(s) && {
            &&& s.id@ == entry.name@
            &&& s.name@ == base_name(entry.name@)
            &&& s.worker_type@ == base_name(entry.name@)
            &&& strictly_sorted(names_of(s.function_ids@))
            &&& forall|t: Seq<char>| #[trigger] names_of(s.function_ids@).contains(t) <==> names_of(function_ids@).contains(t)
            &&& s.internal == names_of(mandatory@).contains(base_name(entry.name@))
        }),
{
    if is_external_process {
        return None;
    }
    let wt = entry.worker_type();
    let mut internal = false;
    let mut i: usize = 0;
    while i < mandatory.len()
        invariant
            i <= mandatory@.len(),
            wt@ == base_name(entry.name@),
            internal == names_of(mandatory@).subrange(0, i as int).contains(wt@),
        decreases mandatory.len() - i,
    {
        let ghost pre = names_of(mandatory@).subrange(0, i as int);
        let ghost cur = names_of(mandatory@).subrange(0, i as int + 1);
        if str_eq(mandatory[i].as_str(), wt) {
            internal = true;
            assert(cur[i as int] == wt@);
        } else {
            proof {
                if cur.contains(wt@) {
                    let k = choose|k: int| 0 <= k < cur.len() && #[trigger] cur[k] == wt@;
                    assert(pre[k] == wt@);
                }
            }
        }
        proof {
            if pre.contains(wt@) {
                let k = choose|k: int| 0 <= k < pre.len() && #[trigger] pre[k] == wt@;
                assert(cur[k] == wt@);
            }
        }
        i += 1;
    }
    assert(names_of(mandatory@).subrange(0, mandatory@.len() as int) =~= names_of(mandatory@));
    Some(RuntimeWorkerSummary {
        id: entry.name.clone(),
        name: String::from_str(wt),
        worker_type: String::from_str(wt),
        function_ids: sorted_distinct(function_ids),
        internal,
    })
}

/// Plain entries (no image, no configuration) for the given names.
pub open spec fn plain_entries(es: Seq<WorkerEntry>, names: Seq<Seq<char>>) -> bool {
    &&& entry_names(es) == names
    &&& forall|i: int| 0 <= i < es.len() ==> (#[trigger] es[i]).image is None && es[i].config is None
}

fn plain_entries_of(names: &Vec<String>) -> (r: Vec<WorkerEntry>)
    ensures
        plain_entries(r@, names@.map_values(|n: String| n@)),
{
    let mut r: Vec<WorkerEntry> = Vec::new();
    let mut i: usize = 0;
    while i < names.len()
        invariant
            i <= names@.len(),
            r@.len() == i,
            forall|k: int| 0 <= k < i ==> (#[trigger] r@[k]).name@ == names@[k]@ && r@[k].image is None
                && r@[k].config is None,
        decreases names.len() - i,
    {
        r.push(WorkerEntry { name: names[i].clone(), image: None, config: None });
        i += 1;
    }
    assert(entry_names(r@) =~= names@.map_values(|n: String| n@));
    r
}

impl EngineConfig {
    /// The configuration of the default workers (`default_names`, those the
    /// engine registers as on by default) as modules, and no workers.
    pub fn default_modules(self, default_names: &Vec<String>) -> (r: EngineConfig)
        ensures
            plain_entries(r.modules@, default_names@.map_values(|n: String| n@)),
            r.workers@.len() == 0,
    {
        EngineConfig { modules: plain_entries_of(default_names), workers: Vec::new() }
    }

    /// The configuration used without a configuration file: the default
    /// workers as modules, plus the built-in daemons (see
    /// [`EngineConfig::ensure_builtin_daemons`]).
    pub fn default_config(default_names: &Vec<String>, daemons_disabled: bool, daemon_binary_found: bool) -> (r: EngineConfig)
        ensures
            plain_entries(r.modules@, default_names@.map_values(|n: String| n@)),
            daemons_ensured(Seq::empty(), r.modules@, r.workers@, daemons_disabled, daemon_binary_found),
    {
        let mut cfg = EngineConfig { modules: plain_entries_of(default_names), workers: Vec::new() };
        let ghost modules = cfg.modules@;
        let ghost before = cfg.workers@;
        assert(before =~= Seq::<WorkerEntry>::empty());
        cfg.ensure_builtin_daemons(daemons_disabled, daemon_binary_found);
        cfg
    }

    /// Add a worker entry (no image) to a configuration, starting from an
    /// empty one when there is none yet.
    pub fn add_worker(config: Option<EngineConfig>, name: &str, worker_config: Option<serde_json::Value>) -> (r: EngineConfig)
        ensures
            ({
                let (modules, workers) = match config {
                    Some(c) => (c.modules@, c.workers@),
                    None => (Seq::<WorkerEntry>::empty(), Seq::<WorkerEntry>::empty()),
                };
                &&& r.modules@ == modules
                &&& r.workers@.len() == workers.len() + 1
                &&& r.workers@.take(workers.len() as int) == workers
                &&& r.workers@.last().name@ == name@
                &&& r.workers@.last().image is None
                &&& r.workers@.last().config == worker_config
            }),
    {
        let mut cfg = match config {
            Some(c) => c,
            None => EngineConfig { modules: Vec::new(), workers: Vec::new() },
        };
        let ghost before = cfg.workers@;
        cfg.workers.push(WorkerEntry { name: String::from_str(name), image: None, config: worker_config });
        assert(cfg.workers@.take(before.len() as int) =~= before);
        cfg
    }

    /// The error when the configuration file cannot be read: a hint when it
    /// does not exist, the reader's reason otherwise.
    pub fn config_read_error(path: &str, not_found: bool, reason: &str) -> (r: String)
        ensures
            not_found ==> r@ == "Config file not found: '"@ + path@
                + "'.\nHint: create a config.yaml or pass --use-default-config to run with defaults."@,
            !not_found ==> r@ == "Failed to read config file '"@ + path@ + "': "@ + reason@,
    {
        if not_found {
            join2("Config file not found: '", path).concat(
                "'.\nHint: create a config.yaml or pass --use-default-config to run with defaults.",
            )
        } else {
            join2("Failed to read config file '", path).concat("': ").concat(reason)
        }
    }

    /// The error when the configuration file's text cannot be parsed.
    pub fn config_parse_error(path: &str, reason: &str) -> (r: String)
        ensures
            r@ == "Failed to parse config file '"@ + path@ + "': "@ + reason@,
    {
        join2("Failed to parse config file '", path).concat("': ").concat(reason)
    }
}

} // verus!
