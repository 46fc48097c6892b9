//! What the scheduler backends compute: capabilities, status snapshots,
//! and the `scx.service` configuration file, read and rewritten.

use vstd::prelude::*;

use crate::sched::SchedMode;
use crate::text::{
    lacks_char, lemma_join_newline_terminated, lemma_lines_lack_newline, lemma_lines_of_terminated,
    lemma_trim_end_prefix, lemma_trim_start_drop_last, lemma_trim_unchanged, strip_cr,
    lemma_trim_strip_cr, lemma_trimmed_ends,
    lemma_seq_lt_transitive, lemma_seq_lt_trichotomy, seq_lt, str_lt,
    is_ws, join, join_spec, lines, lines_spec, split_whitespace, starts_with, str_eq, strip_prefix,
    strip_suffix, trim, trim_spec, trim_start, trim_start_spec, words_spec,
};

verus! {

/// What a backend can do; the front-end hides what it cannot.
#[derive(Debug, Clone, Copy, PartialEq, Eq, Structural)]
pub struct Capabilities {
    /// Can switch schedulers at runtime without a service restart.
    pub live_switch: bool,
    /// Exposes per-scheduler mode configuration.
    pub modes: bool,
    /// Supports restoring a configured default scheduler.
    pub restore_default: bool,
}

/// Snapshot of the scheduler state as a backend reports it.
#[derive(Debug, Clone)]
pub struct Status {
    /// Running scheduler (full name), or `None` when nothing runs.
    pub current: Option<String>,
    /// Mode of the running scheduler (meaningful when `args` is empty).
    pub mode: SchedMode,
    /// Custom arguments the scheduler was started with, if any.
    pub args: Vec<String>,
    /// Default scheduler from the configuration, if any.
    pub default_sched: Option<String>,
    /// Default mode from the configuration.
    pub default_mode: SchedMode,
}

/// The view of a status snapshot.
pub struct StatusView {
    pub current: Option<Seq<char>>,
    pub mode: SchedMode,
    pub args: Seq<Seq<char>>,
    pub default_sched: Option<Seq<char>>,
    pub default_mode: SchedMode,
}

impl View for Status {
    type V = StatusView;

    open spec fn view(&self) -> StatusView {
        StatusView {
            current: opt_string_view(self.current),
            mode: self.mode,
            args: self.args.deep_view(),
            default_sched: opt_string_view(self.default_sched),
            default_mode: self.default_mode,
        }
    }
}

/// The view of an optional string.
pub open spec fn opt_string_view(o: Option<String>) -> Option<Seq<char>> {
    match o {
        Some(s) => Some(s@),
        None => None,
    }
}

/// The loader's answer for "nothing running / nothing configured".
pub open spec fn unknown_name() -> Seq<char> {
    "unknown"@
}

/// `None` for the loader's `"unknown"`, the name otherwise.
pub fn none_if_unknown(value: String) -> (res: Option<String>)
    ensures
        opt_string_view(res) == if value@ == unknown_name() {
            None
        } else {
            Some(value@)
        },
{
    if str_eq(value.as_str(), "unknown") {
        None
    } else {
        Some(value)
    }
}

/// The D-Bus loader backend: what it can do and how its answers become a
/// status snapshot.
pub struct LoaderBackend;

impl LoaderBackend {
    /// Short name for the status bar.
    pub fn label(&self) -> (res: &'static str)
        ensures
            res@ == "scx_loader (D-Bus)"@,
    {
        "scx_loader (D-Bus)"
    }

    /// The loader switches live, has modes, and restores defaults.
    pub fn capabilities(&self) -> (res: Capabilities)
        ensures
            res == (Capabilities { live_switch: true, modes: true, restore_default: true }),
    {
        Capabilities { live_switch: true, modes: true, restore_default: true }
    }

    /// The status snapshot built from the loader's properties, with its
    /// `"unknown"` answers read as "none".
    pub fn status_from(
        &self,
        current: String,
        mode: SchedMode,
        args: Vec<String>,
        default_sched: String,
        default_mode: SchedMode,
    ) -> (res: Status)
        ensures
            opt_string_view(res.current) == if current@ == unknown_name() {
                None
            } else {
                Some(current@)
            },
            res.mode == mode,
            res.args == args,
            opt_string_view(res.default_sched) == if default_sched@ == unknown_name() {
                None
            } else {
                Some(default_sched@)
            },
            res.default_mode == default_mode,
    {
        Status {
            current: none_if_unknown(current),
            mode,
            args,
            default_sched: none_if_unknown(default_sched),
            default_mode,
        }
    }
}

/// `value` trimmed, and without one pair of enclosing double or single
/// quotes.
pub open spec fn unquote_spec(value: Seq<char>) -> Seq<char> {
    let t = trim_spec(value);
    if t.len() >= 2 && t[0] == '"' && t.last() == '"' {
        t.subrange(1, t.len() - 1)
    } else if t.len() >= 2 && t[0] == '\'' && t.last() == '\'' {
        t.subrange(1, t.len() - 1)
    } else {
        t
    }
}

/// `value` trimmed, and without one pair of enclosing double or single
/// quotes.
pub fn unquote(value: &str) -> (res: String)
    ensures
        res@ == unquote_spec(value@),
{
    let t = trim(value);
    proof {
        reveal_strlit("'");
        reveal_strlit("\"");
        assert("\""@ =~= seq!['"']);
        assert("'"@ =~= seq!['\'']);
    }
    if let Some(inner) = strip_prefix(t.as_str(), "\"") {
        if let Some(core) = strip_suffix(inner.as_str(), "\"") {
            proof {
                assert("\""@.is_prefix_of(t@));
                assert(t@.subrange(0, 1) =~= seq!['"']);
                assert(t@.subrange(0, 1)[0] == t@[0]);
                assert(t@.last() == inner@.last());
                assert(core@ =~= t@.subrange(1, t@.len() - 1));
            }
            return core;
        }
    }
    if let Some(inner) = strip_prefix(t.as_str(), "'") {
        if let Some(core) = strip_suffix(inner.as_str(), "'") {
            proof {
                assert("'"@.is_prefix_of(t@));
                assert(t@.subrange(0, 1) =~= seq!['\'']);
                assert(t@.subrange(0, 1)[0] == t@[0]);
                assert(t@.last() == inner@.last());
                assert(core@ =~= t@.subrange(1, t@.len() - 1));
            }
            return core;
        }
    }
    proof {
        reveal_strlit("'");
        reveal_strlit("\"");
        if t@.len() >= 2 && t@[0] == '"' && t@.last() == '"' {
            assert(seq!['"'].is_prefix_of(t@));
            let inner = t@.skip(1);
            assert(inner.skip(inner.len() - 1) =~= seq!['"']);
        }
        if t@.len() >= 2 && t@[0] == '\'' && t@.last() == '\'' {
            assert(seq!['\''].is_prefix_of(t@));
            let inner = t@.skip(1);
            assert(inner.skip(inner.len() - 1) =~= seq!['\'']);
        }
    }
    t
}


/// The key that names the configured scheduler.
pub open spec fn sched_key() -> Seq<char> {
    "SCX_SCHEDULER="@
}

/// The key that holds the scheduler's flags.
pub open spec fn flags_key() -> Seq<char> {
    "SCX_FLAGS="@
}

/// What the configuration file has said so far: the scheduler, and its
/// flags.
pub type ServiceConfigState = (Option<Seq<char>>, Seq<Seq<char>>);

/// One line of the configuration file read into the state: comment lines
/// (starting with `#` once trimmed) change nothing, a `SCX_SCHEDULER=`
/// line sets the scheduler, a `SCX_FLAGS=` line sets the flags (split at
/// white space), and other lines change nothing.
pub open spec fn service_config_step(st: ServiceConfigState, raw_line: Seq<char>) -> ServiceConfigState {
    let line = trim_spec(raw_line);
    if line.len() > 0 && line[0] == '#' {
        st
    } else if sched_key().is_prefix_of(line) {
        (Some(unquote_spec(line.skip(sched_key().len() as int))), st.1)
    } else if flags_key().is_prefix_of(line) {
        (st.0, words_spec(unquote_spec(line.skip(flags_key().len() as int))))
    } else {
        st
    }
}

/// The state after reading `lines` in order, from nothing said.
pub open spec fn service_config_fold(lines: Seq<Seq<char>>) -> ServiceConfigState
    decreases lines.len(),
{
    if lines.len() == 0 {
        (None, Seq::empty())
    } else {
        service_config_step(service_config_fold(lines.drop_last()), lines.last())
    }
}

/// The configured scheduler (an empty name counts as none) and flags of
/// the configuration text `content`.
pub open spec fn service_config_spec(content: Seq<char>) -> ServiceConfigState {
    let st = service_config_fold(lines_spec(content));
    (
        if st.0 matches Some(s) && s.len() > 0 {
            st.0
        } else {
            None
        },
        st.1,
    )
}

/// Whether a line of the configuration file assigns the scheduler.
pub open spec fn is_sched_line(line: Seq<char>) -> bool {
    sched_key().is_prefix_of(trim_start_spec(line))
}

/// The line that assigns `sched`.
pub open spec fn sched_assignment(sched: Seq<char>) -> Seq<char> {
    sched_key() + sched
}

/// `line`, or the assignment of `sched` when `line` assigns the scheduler.
pub open spec fn rewrite_line(line: Seq<char>, sched: Seq<char>) -> Seq<char> {
    if is_sched_line(line) {
        sched_assignment(sched)
    } else {
        line
    }
}

/// Every line of `lines` rewritten by `rewrite_line`.
pub open spec fn rewrite_each(lines: Seq<Seq<char>>, sched: Seq<char>) -> Seq<Seq<char>> {
    Seq::new(lines.len(), |i: int| rewrite_line(lines[i], sched))
}

/// `lines` with every scheduler assignment set to `sched`, and one
/// appended when there was none.
pub open spec fn rewritten_lines(lines: Seq<Seq<char>>, sched: Seq<char>) -> Seq<Seq<char>> {
    let m = rewrite_each(lines, sched);
    if exists|i: int| 0 <= i < lines.len() && is_sched_line(#[trigger] lines[i]) {
        m
    } else {
        m.push(sched_assignment(sched))
    }
}

/// The configuration text with the scheduler set to `sched`: every other
/// line kept, lines joined by `\n` with a final `\n`.
pub open spec fn rewrite_spec(content: Seq<char>, sched: Seq<char>) -> Seq<char> {
    join_spec(rewritten_lines(lines_spec(content), sched), "\n"@) + "\n"@
}

/// Whether a (trimmed) configuration line is a comment.
fn line_starts_with_hash(line: &str) -> (res: bool)
    ensures
        res == (line@.len() > 0 && line@[0] == '#'),
{
    proof {
        reveal_strlit("#");
        assert("#"@ =~= seq!['#']);
    }
    let r = starts_with(line, "#");
    proof {
        if line@.len() > 0 && line@[0] == '#' {
            assert(line@.subrange(0, 1) =~= seq!['#']);
        }
        if r {
            assert(line@.subrange(0, 1)[0] == line@[0]);
        }
    }
    r
}

/// The `scx.service` backend: configuration file and systemd unit.
pub struct ServiceBackend {
    /// The configuration file this backend reads and rewrites.
    pub config_path: String,
}

/// Where the `scx.service` configuration may live: the Debian/Arch
/// location first, the Fedora/openSUSE one second.
pub open spec fn service_config_candidates_spec() -> Seq<Seq<char>> {
    seq!["/etc/default/scx"@, "/etc/sysconfig/scx"@]
}

impl ServiceBackend {
    /// The candidate configuration paths, in order of preference.
    pub fn config_candidates() -> (res: Vec<String>)
        ensures
            res.deep_view() == service_config_candidates_spec(),
    {
        let res = vec!["/etc/default/scx".to_owned(), "/etc/sysconfig/scx".to_owned()];
        assert(res.deep_view() =~= service_config_candidates_spec());
        res
    }

    /// The backend for the first candidate path that exists (`present`
    /// tells which do), or for the first candidate when none does, so the
    /// file is created there.
    pub fn for_present_config(present: &Vec<bool>) -> (res: ServiceBackend)
        requires
            present.len() == 2,
        ensures
            res.config_path@ == if !present[0] && present[1] {
                service_config_candidates_spec()[1]
            } else {
                service_config_candidates_spec()[0]
            },
    {
        let candidates = ServiceBackend::config_candidates();
        assert(candidates.deep_view().len() == 2);
        let path = if !present[0] && present[1] {
            candidates[1].clone()
        } else {
            candidates[0].clone()
        };
        ServiceBackend { config_path: path }
    }

    /// Short name for the status bar.
    pub fn label(&self) -> (res: &'static str)
        ensures
            res@ == "scx.service (systemd)"@,
    {
        "scx.service (systemd)"
    }

    /// The service has no live switch, no modes, and no restore-default.
    pub fn capabilities(&self) -> (res: Capabilities)
        ensures
            res == (Capabilities { live_switch: false, modes: false, restore_default: false }),
    {
        Capabilities { live_switch: false, modes: false, restore_default: false }
    }

    /// Reads the configuration text: the configured scheduler (none when
    /// unset or empty) and its flags. Missing text reads as nothing set.
    pub fn parse_config(content: &str) -> (res: (Option<String>, Vec<String>))
        ensures
            (opt_string_view(res.0), res.1.deep_view()) == service_config_spec(content@),
    {
        let ls = lines(content);
        let ghost lv = ls.deep_view();
        let mut sched: Option<String> = None;
        let mut flags: Vec<String> = Vec::new();
        let n = ls.len();
        for i in 0..n
            invariant
                n == ls.len(),
                lv == ls.deep_view(),
                lv == lines_spec(content@),
                (opt_string_view(sched), flags.deep_view()) == service_config_fold(
                    lv.take(i as int),
                ),
        {
            let ghost st = (opt_string_view(sched), flags.deep_view());
            assert(lv.take(i + 1).drop_last() =~= lv.take(i as int));
            assert(lv.take(i + 1).last() == ls[i as int]@);
            let line = trim(ls[i].as_str());
            if line_starts_with_hash(line.as_str()) {
            } else if let Some(value) = strip_prefix(line.as_str(), "SCX_SCHEDULER=") {
                sched = Some(unquote(value.as_str()));
            } else if let Some(value) = strip_prefix(line.as_str(), "SCX_FLAGS=") {
                flags = split_whitespace(unquote(value.as_str()).as_str());
            }
        }
        assert(lv.take(n as int) =~= lv);
        let res_sched = match sched {
            Some(s) => if s.as_str().is_empty() {
                None
            } else {
                Some(s)
            },
            None => None,
        };
        (res_sched, flags)
    }

    /// The configuration text with the scheduler set to `sched`: every
    /// line whose start (after white space) is `SCX_SCHEDULER=` becomes
    /// `SCX_SCHEDULER=<sched>`, the assignment is appended when absent, and
    /// all other lines stay as they were.
    pub fn rewrite_config(content: &str, sched: &str) -> (res: String)
        ensures
            res@ == rewrite_spec(content@, sched@),
    {
        let ls = lines(content);
        let ghost lv = ls.deep_view();
        let mut assignment = "SCX_SCHEDULER=".to_owned();
        assignment.append(sched);
        let mut out: Vec<String> = Vec::new();
        let mut replaced = false;
        let n = ls.len();
        for i in 0..n
            invariant
                n == ls.len(),
                lv == ls.deep_view(),
                assignment@ == sched_assignment(sched@),
                out.deep_view() == rewrite_each(lv.take(i as int), sched@),
                replaced == exists|j: int| 0 <= j < i && is_sched_line(#[trigger] lv[j]),
        {
            let ghost pre = out.deep_view();
            let head = trim_start(ls[i].as_str());
            assert(lv[i as int] == ls[i as int]@);
            let is_assignment = starts_with(head.as_str(), "SCX_SCHEDULER=");
            assert(is_assignment == is_sched_line(lv[i as int]));
            if is_assignment {
                replaced = true;
                out.push(assignment.clone());
            } else {
                out.push(ls[i].clone());
            }
            assert(out.deep_view() =~= pre.push(rewrite_line(lv[i as int], sched@)));
            assert(rewrite_each(lv.take(i + 1), sched@) =~= rewrite_each(lv.take(i as int), sched@).push(
                rewrite_line(lv[i as int], sched@),
            ));
        }
        assert(lv.take(n as int) =~= lv);
        if !replaced {
            let ghost pre = out.deep_view();
            out.push(assignment);
            assert(out.deep_view() =~= pre.push(sched_assignment(sched@)));
        }
        let mut text = join(&out, "\n");
        text.append("\n");
        text
    }

    /// The status snapshot: something runs when the unit is active (named
    /// by the configured scheduler, or `scx_(unset)`), modes are not
    /// tracked (always `Auto`), the arguments are the configured flags,
    /// and the configured scheduler is the default.
    pub fn status_from(&self, config: (Option<String>, Vec<String>), active: bool) -> (res: Status)
        ensures
            opt_string_view(res.current) == if active {
                Some(
                    match opt_string_view(config.0) {
                        Some(s) => s,
                        None => "scx_(unset)"@,
                    },
                )
            } else {
                None
            },
            res.mode == SchedMode::Auto,
            res.args.deep_view() == config.1.deep_view(),
            opt_string_view(res.default_sched) == opt_string_view(config.0),
            res.default_mode == SchedMode::Auto,
    {
        let (sched, flags) = config;
        let current = if active {
            match &sched {
                Some(s) => Some(s.clone()),
                None => Some("scx_(unset)".to_owned()),
            }
        } else {
            None
        };
        Status {
            current,
            mode: SchedMode::Auto,
            args: flags,
            default_sched: sched,
            default_mode: SchedMode::Auto,
        }
    }
}


/// Whether `names` is in strictly increasing code-point order (so no name
/// occurs twice), as the elements of a `BTreeSet` come out.
pub open spec fn strictly_sorted(names: Seq<Seq<char>>) -> bool {
    forall|i: int, j: int| 0 <= i < j < names.len() ==> seq_lt(#[trigger] names[i], #[trigger] names[j])
}

/// Adds `name` to the strictly sorted `names`, where it is not already.
pub fn insert_sorted(names: &mut Vec<String>, name: String)
    requires
        strictly_sorted(old(names).deep_view()),
    ensures
        strictly_sorted(final(names).deep_view()),
        forall|x: Seq<char>| #[trigger] final(names).deep_view().contains(x) <==> (old(
            names,
        ).deep_view().contains(x) || x == name@),
{
    let ghost old_v = names.deep_view();
    let n = names.len();
    let mut p: usize = 0;
    while p < n && str_lt(names[p].as_str(), name.as_str())
        invariant
            n == names.len(),
            old_v == names.deep_view(),
            p <= n,
            forall|i: int| 0 <= i < p ==> seq_lt(#[trigger] old_v[i], name@),
        decreases n - p,
    {
        p = p + 1;
    }
    if p < n && str_eq(names[p].as_str(), name.as_str()) {
        assert(old_v[p as int] == name@);
        return;
    }
    proof {
        if p < n {
            lemma_seq_lt_trichotomy(old_v[p as int], name@);
            assert(seq_lt(name@, old_v[p as int]));
            assert forall|j: int| p <= j < n implies seq_lt(name@, #[trigger] old_v[j]) by {
                if j > p {
                    lemma_seq_lt_transitive(name@, old_v[p as int], old_v[j]);
                }
            }
        }
    }
    names.insert(p, name);
    proof {
        let v = names.deep_view();
        assert(v =~= old_v.insert(p as int, name@));
        assert forall|i: int, j: int| 0 <= i < j < v.len() implies seq_lt(
            #[trigger] v[i],
            #[trigger] v[j],
        ) by {
            if j < p {
            } else if j == p {
            } else if i < p {
                assert(v[j] == old_v[j - 1]);
                lemma_seq_lt_transitive(v[i], name@, v[j]);
            } else if i == p {
                assert(v[j] == old_v[j - 1]);
            } else {
                assert(v[i] == old_v[i - 1] && v[j] == old_v[j - 1]);
            }
        }
        assert forall|x: Seq<char>| #[trigger] v.contains(x) <==> (old_v.contains(x) || x
            == name@) by {
            if v.contains(x) {
                let k = choose|k: int| 0 <= k < v.len() && v[k] == x;
                if k < p {
                    assert(old_v[k] == x);
                } else if k > p {
                    assert(old_v[k - 1] == x);
                }
            }
            if old_v.contains(x) {
                let k = choose|k: int| 0 <= k < old_v.len() && old_v[k] == x;
                if k < p {
                    assert(v[k] == x);
                } else {
                    assert(v[k + 1] == x);
                }
            }
            if x == name@ {
                assert(v[p as int] == x);
            }
        }
    }
}

/// Whether a file in `PATH` is a scheduler: named `scx_*`, an executable
/// file, and not the loader daemon itself.
pub open spec fn is_scheduler_binary_spec(name: Seq<char>, is_executable: bool) -> bool {
    "scx_"@.is_prefix_of(name) && name != "scx_loader"@ && is_executable
}

/// The scheduler binaries among the files `names` (`is_executable` tells
/// which are executable files): each once, in code-point order.
pub fn collect_scheduler_names(names: &Vec<String>, is_executable: &Vec<bool>) -> (res: Vec<String>)
    requires
        names.len() == is_executable.len(),
    ensures
        strictly_sorted(res.deep_view()),
        forall|x: Seq<char>| #[trigger] res.deep_view().contains(x) <==> exists|i: int|
            0 <= i < names.len() && names[i]@ == x && is_scheduler_binary_spec(
                x,
                #[trigger] is_executable[i],
            ),
{
    let mut found: Vec<String> = Vec::new();
    let n = names.len();
    for i in 0..n
        invariant
            n == names.len(),
            n == is_executable.len(),
            strictly_sorted(found.deep_view()),
            forall|x: Seq<char>| #[trigger] found.deep_view().contains(x) <==> exists|j: int|
                0 <= j < i && names[j]@ == x && is_scheduler_binary_spec(x, #[trigger] is_executable[j]),
    {
        let name = names[i].as_str();
        let ghost before = found.deep_view();
        if starts_with(name, "scx_") && !str_eq(name, "scx_loader") && is_executable[i] {
            insert_sorted(&mut found, name.to_owned());
        }
        proof {
            assert forall|x: Seq<char>| #[trigger] found.deep_view().contains(x) <==> exists|j: int|
                0 <= j < i + 1 && names[j]@ == x && is_scheduler_binary_spec(
                    x,
                    #[trigger] is_executable[j],
                ) by {
                if exists|j: int|
                    0 <= j < i + 1 && names[j]@ == x && is_scheduler_binary_spec(
                        x,
                        #[trigger] is_executable[j],
                    ) {
                    let j = choose|j: int|
                        0 <= j < i + 1 && names[j]@ == x && is_scheduler_binary_spec(
                            x,
                            #[trigger] is_executable[j],
                        );
                    if j < i {
                        assert(before.contains(x));
                    }
                }
            }
        }
    }
    found
}

impl ServiceBackend {
    /// The schedulers the service can run, or `None` when none was found.
    pub fn supported_schedulers_from(names: &Vec<String>, is_executable: &Vec<bool>) -> (res: Option<
        Vec<String>,
    >)
        requires
            names.len() == is_executable.len(),
        ensures
            res is None <==> !exists|i: int|
                0 <= i < names.len() && is_scheduler_binary_spec(names[i]@, #[trigger] is_executable[i]),
            res matches Some(v) ==> strictly_sorted(v.deep_view()) && forall|x: Seq<char>|
                #[trigger] v.deep_view().contains(x) <==> exists|i: int|
                    0 <= i < names.len() && names[i]@ == x && is_scheduler_binary_spec(
                        x,
                        #[trigger] is_executable[i],
                    ),
    {
        let found = collect_scheduler_names(names, is_executable);
        if found.len() == 0 {
            proof {
                if exists|i: int|
                    0 <= i < names.len() && is_scheduler_binary_spec(
                        names[i]@,
                        #[trigger] is_executable[i],
                    ) {
                    let i = choose|i: int|
                        0 <= i < names.len() && is_scheduler_binary_spec(
                            names[i]@,
                            #[trigger] is_executable[i],
                        );
                    assert(found.deep_view().contains(names[i]@));
                }
            }
            None
        } else {
            proof {
                assert(found.deep_view().contains(found.deep_view()[0]));
            }
            Some(found)
        }
    }
}


/// Whether `s` is wrapped in one pair of matching double or single quotes.
pub open spec fn wrapped_in_quotes(s: Seq<char>) -> bool {
    s.len() >= 2 && ((s[0] == '"' && s.last() == '"') || (s[0] == '\'' && s.last() == '\''))
}

/// A scheduler name that the configuration file can hold as it is: not
/// empty, on one line, without white space at either end, and not wrapped
/// in matching quotes.
pub open spec fn storable_name(s: Seq<char>) -> bool {
    &&& s.len() > 0
    &&& lacks_char(s, '\n')
    &&& trim_spec(s) == s
    &&& !wrapped_in_quotes(s)
}

/// Whether reading `line` leaves the configured scheduler as it was.
pub open spec fn keeps_sched(line: Seq<char>) -> bool {
    !sched_key().is_prefix_of(trim_spec(line))
}

/// Whether reading `line` leaves the configured flags as they were.
pub open spec fn keeps_flags(line: Seq<char>) -> bool {
    !flags_key().is_prefix_of(trim_spec(line))
}

proof fn lemma_step_keeps_sched(st: ServiceConfigState, line: Seq<char>)
    requires
        keeps_sched(line),
    ensures
        service_config_step(st, line).0 == st.0,
{
}

proof fn lemma_step_keeps_flags(st: ServiceConfigState, line: Seq<char>)
    requires
        keeps_flags(line),
    ensures
        service_config_step(st, line).1 == st.1,
{
}

/// The assignment line of a storable name is its own trim, and reading it
/// sets that name and keeps the flags.
proof fn lemma_step_assignment(st: ServiceConfigState, sched: Seq<char>)
    requires
        storable_name(sched),
    ensures
        service_config_step(st, sched_assignment(sched)) == (Some(sched), st.1),
        keeps_flags(sched_assignment(sched)),
        trim_spec(sched_assignment(sched)) == sched_assignment(sched),
        strip_cr(sched_assignment(sched)) == sched_assignment(sched),
        lacks_char(sched_assignment(sched), '\n'),
{
    reveal_strlit("SCX_SCHEDULER=");
    reveal_strlit("SCX_FLAGS=");
    let a = sched_assignment(sched);
    let k = sched_key();
    lemma_trimmed_ends(sched);
    assert(k.len() == 14);
    assert(a[0] == 'S');
    assert(a[4] == 'S');
    assert(a.last() == sched.last());
    lemma_trim_unchanged(a);
    assert(k.is_prefix_of(a)) by {
        assert(a.subrange(0, k.len() as int) =~= k);
    }
    assert(a.skip(k.len() as int) =~= sched);
    assert(!flags_key().is_prefix_of(a)) by {
        if flags_key().is_prefix_of(a) {
            assert(flags_key()[4] == a[4]);
        }
    }
    assert(lacks_char(a, '\n')) by {
        assert forall|j: int| 0 <= j < a.len() implies #[trigger] a[j] != '\n' by {
            if j >= 14 {
                assert(a[j] == sched[j - 14]);
            }
        }
    }
}

/// A line that does not assign the scheduler keeps it when read back,
/// with or without a final carriage return.
proof fn lemma_other_line_keeps_sched(line: Seq<char>)
    requires
        !is_sched_line(line),
    ensures
        keeps_sched(strip_cr(line)),
{
    let x = strip_cr(line);
    let k = sched_key();
    if k.is_prefix_of(trim_spec(x)) {
        lemma_trim_end_prefix(trim_start_spec(x));
        let ts = trim_start_spec(x);
        assert(trim_spec(x).is_prefix_of(ts));
        if x != line {
            lemma_trim_start_drop_last(line);
        }
        assert(ts.is_prefix_of(trim_start_spec(line)));
        assert(k.is_prefix_of(trim_start_spec(line))) by {
            assert forall|j: int| 0 <= j < k.len() implies k[j] == trim_start_spec(line)[j] by {
                assert(k[j] == trim_spec(x)[j]);
                assert(trim_spec(x)[j] == ts[j]);
                assert(ts[j] == trim_start_spec(line)[j]);
            }
            assert(k =~= trim_start_spec(line).subrange(0, k.len() as int));
        }
    }
}

/// A line that assigns the scheduler does not set the flags.
proof fn lemma_sched_line_keeps_flags(line: Seq<char>)
    requires
        is_sched_line(line),
    ensures
        keeps_flags(line),
{
    reveal_strlit("SCX_SCHEDULER=");
    reveal_strlit("SCX_FLAGS=");
    let ts = trim_start_spec(line);
    let t = trim_spec(line);
    lemma_trim_end_prefix(ts);
    if flags_key().is_prefix_of(t) {
        assert(flags_key()[4] == t[4]);
        assert(t[4] == ts[4]);
        assert(sched_key()[4] == ts[4]);
    }
}

/// Reading lines that each keep the scheduler or assign `sched`, at
/// least one assigning it, ends with `sched` configured.
proof fn lemma_fold_ends_with_assignment(ls: Seq<Seq<char>>, sched: Seq<char>)
    requires
        storable_name(sched),
        forall|i: int|
            0 <= i < ls.len() ==> #[trigger] ls[i] == sched_assignment(sched) || keeps_sched(ls[i]),
        exists|i: int| 0 <= i < ls.len() && #[trigger] ls[i] == sched_assignment(sched),
    ensures
        service_config_fold(ls).0 == Some(sched),
    decreases ls.len(),
{
    let last = ls.last();
    let prev = ls.drop_last();
    if last == sched_assignment(sched) {
        lemma_step_assignment(service_config_fold(prev), sched);
    } else {
        let i = choose|i: int| 0 <= i < ls.len() && #[trigger] ls[i] == sched_assignment(sched);
        assert(i < ls.len() - 1);
        assert(prev[i] == sched_assignment(sched));
        assert forall|j: int| 0 <= j < prev.len() implies #[trigger] prev[j] == sched_assignment(
            sched,
        ) || keeps_sched(prev[j]) by {
            assert(prev[j] == ls[j]);
        }
        lemma_fold_ends_with_assignment(prev, sched);
        assert(keeps_sched(ls[ls.len() - 1]));
        lemma_step_keeps_sched(service_config_fold(prev), last);
    }
}

/// Whether reading `p` and reading `q` do the same to the flags, whatever
/// was read before.
pub open spec fn same_flags_effect(p: Seq<char>, q: Seq<char>) -> bool {
    trim_spec(p) == trim_spec(q) || (keeps_flags(p) && keeps_flags(q))
}

/// Reading two lists of lines whose lines pairwise do the same to the
/// flags ends with the same flags.
proof fn lemma_fold_same_flags(p: Seq<Seq<char>>, q: Seq<Seq<char>>)
    requires
        p.len() == q.len(),
        forall|i: int| 0 <= i < p.len() ==> same_flags_effect(#[trigger] p[i], q[i]),
    ensures
        service_config_fold(p).1 == service_config_fold(q).1,
    decreases p.len(),
{
    if p.len() > 0 {
        let pp = p.drop_last();
        let qq = q.drop_last();
        assert forall|i: int| 0 <= i < pp.len() implies same_flags_effect(#[trigger] pp[i], qq[i]) by {
            assert(pp[i] == p[i] && qq[i] == q[i]);
        }
        lemma_fold_same_flags(pp, qq);
        assert(same_flags_effect(p[p.len() - 1], q[q.len() - 1]));
    }
}

/// Reading back the file after setting the scheduler to a storable name
/// gives that scheduler, and the flags the file held before, whatever
/// else the file held.
pub proof fn lemma_rewrite_then_read(content: Seq<char>, sched: Seq<char>)
    requires
        storable_name(sched),
    ensures
        service_config_spec(rewrite_spec(content, sched)) == (
            Some(sched),
            service_config_spec(content).1,
        ),
{
    let ls = lines_spec(content);
    let r = rewritten_lines(ls, sched);
    let a = sched_assignment(sched);
    lemma_step_assignment(service_config_fold(ls), sched);
    lemma_lines_lack_newline(content);
    let m = rewrite_each(ls, sched);
    assert forall|i: int| 0 <= i < r.len() implies lacks_char(#[trigger] r[i], '\n') by {
        if i < m.len() {
            assert(m[i] == rewrite_line(ls[i], sched));
        }
    }
    let has_line = exists|i: int| 0 <= i < ls.len() && is_sched_line(#[trigger] ls[i]);
    assert(exists|i: int| 0 <= i < r.len() && #[trigger] r[i] == a) by {
        if has_line {
            let i = choose|i: int| 0 <= i < ls.len() && is_sched_line(#[trigger] ls[i]);
            assert(r[i] == a);
        } else {
            assert(r[r.len() - 1] == a);
        }
    }
    assert(r.len() > 0);
    lemma_join_newline_terminated(r);
    lemma_lines_of_terminated(r);
    let back = lines_spec(rewrite_spec(content, sched));
    assert(back == Seq::new(r.len(), |i: int| strip_cr(r[i])));
    assert forall|i: int| 0 <= i < back.len() implies #[trigger] back[i] == a || keeps_sched(
        back[i],
    ) by {
        assert(back[i] == strip_cr(r[i]));
        if i < m.len() {
            assert(r[i] == rewrite_line(ls[i], sched));
            if !is_sched_line(ls[i]) {
                lemma_other_line_keeps_sched(ls[i]);
            }
        }
    }
    assert(exists|i: int| 0 <= i < back.len() && #[trigger] back[i] == a) by {
        let i = choose|i: int| 0 <= i < r.len() && #[trigger] r[i] == a;
        assert(back[i] == a);
    }
    lemma_fold_ends_with_assignment(back, sched);
    // The flags: each line read back does to them what its source line did.
    let front = back.take(ls.len() as int);
    assert forall|i: int| 0 <= i < ls.len() implies same_flags_effect(#[trigger] ls[i], front[i]) by {
        assert(front[i] == back[i]);
        assert(back[i] == strip_cr(r[i]));
        assert(r[i] == m[i]);
        assert(m[i] == rewrite_line(ls[i], sched));
        if is_sched_line(ls[i]) {
            lemma_sched_line_keeps_flags(ls[i]);
        } else {
            lemma_trim_strip_cr(ls[i]);
        }
    }
    lemma_fold_same_flags(ls, front);
    if has_line {
        assert(back =~= front);
    } else {
        assert(back.len() == ls.len() + 1);
        assert(back.drop_last() =~= front);
        assert(back.last() == a);
        lemma_step_assignment(service_config_fold(front), sched);
    }
}


impl ServiceBackend {
    /// The error after `systemctl <verb> scx.service` failed with
    /// `stderr`.
    pub fn systemctl_failure(verb: &str, stderr: &str) -> (res: String)
        ensures
            res@ == "systemctl "@ + verb@ + " scx.service failed: "@ + trim_spec(stderr@)
                + " (controlling the unit may require root)"@,
    {
        let mut t = "systemctl ".to_owned();
        t.append(verb);
        t.append(" scx.service failed: ");
        t.append(trim(stderr).as_str());
        t.append(" (controlling the unit may require root)");
        t
    }

    /// The error after the configuration file could not be written.
    pub fn write_failure(&self) -> (res: String)
        ensures
            res@ == "cannot write "@ + self.config_path@
                + " — editing it requires root; run scxtui as root to control scx.service"@,
    {
        let mut t = "cannot write ".to_owned();
        t.append(self.config_path.as_str());
        t.append(" — editing it requires root; run scxtui as root to control scx.service");
        t
    }
}

} // verus!
