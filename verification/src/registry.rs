//! The registry: an in-memory mapping from entry name to flake, loaded once
//! from the configuration file, mutated by at most one command, and written
//! back exactly once before the process exits.
//!
//! Entry names are unique; insertion refuses a duplicate instead of
//! overwriting, and loading keeps the first record of a repeated name.

use vstd::prelude::*;
use vstd::string::*;
use crate::batch::{BatchUpdater, targets_view};
use crate::codec::{NamedFlake, RecordView, spec_parse, spec_config_text, parse_config,
    write_config};
use crate::errors::{Error, ErrorV, Warning, WarningV};
use crate::text::str_eq;

verus! {

/// A flake managed by the registry.  If it is not enabled, the batch update
/// skips it.
#[derive(Debug, Clone, PartialEq, Eq)]
pub struct Flake {
    /// The location of the flake directory, as an absolute path string.
    pub location: String,
    pub enabled: bool,
}

/// The mathematical shape of a [`Flake`].
pub struct FlakeView {
    pub location: Seq<char>,
    pub enabled: bool,
}

impl View for Flake {
    type V = FlakeView;

    open spec fn view(&self) -> FlakeView {
        FlakeView { location: self.location@, enabled: self.enabled }
    }
}

/// Filters for the list command; at most one of the two is set.
#[derive(Debug, Clone, Copy, PartialEq, Eq)]
pub struct ListFilter {
    /// Only list enabled flakes.
    pub enabled: bool,
    /// Only list disabled flakes.
    pub disabled: bool,
}

/// Some entry of `rs` carries the name `n`.
pub open spec fn has_name(rs: Seq<RecordView>, n: Seq<char>) -> bool {
    exists|i: int| 0 <= i < rs.len() && (#[trigger] rs[i]).name == n
}

/// The index of the first entry named `n`, or -1 when there is none.
pub open spec fn find_name(rs: Seq<RecordView>, n: Seq<char>) -> int
    decreases rs.len(),
{
    if rs.len() == 0 {
        -1
    } else if rs[0].name == n {
        0
    } else {
        let r = find_name(rs.drop_first(), n);
        if r < 0 {
            -1
        } else {
            r + 1
        }
    }
}

/// `find_name` finds exactly the first entry with the asked-for name.
pub proof fn lemma_find_name(rs: Seq<RecordView>, n: Seq<char>)
    ensures
        has_name(rs, n) <==> find_name(rs, n) >= 0,
        find_name(rs, n) >= 0 ==> find_name(rs, n) < rs.len() && rs[find_name(rs, n)].name == n,
        forall|j: int| 0 <= j < find_name(rs, n) ==> (#[trigger] rs[j]).name != n,
    decreases rs.len(),
{
    if rs.len() == 0 {
    } else if rs[0].name == n {
    } else {
        lemma_find_name(rs.drop_first(), n);
        assert forall|j: int| 0 <= j < find_name(rs, n) implies (#[trigger] rs[j]).name != n by {
            if j > 0 {
                assert(rs.drop_first()[j - 1] == rs[j]);
                assert(rs.drop_first()[j - 1].name != n);
            }
        }
        if has_name(rs, n) {
            let i = choose|i: int| 0 <= i < rs.len() && (#[trigger] rs[i]).name == n;
            assert(i != 0);
            assert(rs.drop_first()[i - 1].name == n);
        }
        if has_name(rs.drop_first(), n) {
            let i = choose|i: int| 0 <= i < rs.drop_first().len() && (#[trigger] rs.drop_first()[i]).name
                == n;
            assert(rs[i + 1].name == n);
        }
    }
}

/// Folds loaded records into the registry: a record whose name was already
/// seen is dropped, the first-loaded record wins.
pub open spec fn dedup_acc(acc: Seq<RecordView>, rest: Seq<RecordView>) -> Seq<RecordView>
    decreases rest.len(),
{
    if rest.len() == 0 {
        acc
    } else if has_name(acc, rest[0].name) {
        dedup_acc(acc, rest.drop_first())
    } else {
        dedup_acc(acc.push(rest[0]), rest.drop_first())
    }
}

/// The entries a load of these records leaves in the registry.
pub open spec fn spec_dedup(rs: Seq<RecordView>) -> Seq<RecordView> {
    dedup_acc(Seq::empty(), rs)
}

/// The duplicate warnings a load of these records emits, in order: one per
/// dropped record, naming the discarded location.
pub open spec fn dup_warn_acc(acc: Seq<RecordView>, rest: Seq<RecordView>) -> Seq<WarningV>
    decreases rest.len(),
{
    if rest.len() == 0 {
        Seq::empty()
    } else if has_name(acc, rest[0].name) {
        seq![WarningV::DuplicateOnLoad { name: rest[0].name, discarded: rest[0].location }]
            + dup_warn_acc(acc, rest.drop_first())
    } else {
        dup_warn_acc(acc.push(rest[0]), rest.drop_first())
    }
}

/// The duplicate warnings a load of these records emits.
pub open spec fn spec_dup_warnings(rs: Seq<RecordView>) -> Seq<WarningV> {
    dup_warn_acc(Seq::empty(), rs)
}

/// No two entries carry the same name.
pub open spec fn unique_names(rs: Seq<RecordView>) -> bool {
    forall|i: int, j: int| 0 <= i < j < rs.len() ==> (#[trigger] rs[i]).name != (
    #[trigger] rs[j]).name
}

/// The registry after setting the named entry's flag, or unchanged when the
/// name is not tracked.
pub open spec fn spec_set_enabled(rs: Seq<RecordView>, n: Seq<char>, e: bool) -> Seq<RecordView> {
    if has_name(rs, n) {
        let k = find_name(rs, n);
        rs.update(k, RecordView { name: rs[k].name, location: rs[k].location, enabled: e })
    } else {
        rs
    }
}

/// The entries a whole-registry update acts on: every enabled entry's name
/// and location, in registry order.
pub open spec fn enabled_targets(rs: Seq<RecordView>) -> Seq<(Seq<char>, Seq<char>)>
    decreases rs.len(),
{
    if rs.len() == 0 {
        Seq::empty()
    } else {
        (if rs[0].enabled {
            seq![(rs[0].name, rs[0].location)]
        } else {
            Seq::empty()
        }) + enabled_targets(rs.drop_first())
    }
}

/// Whether the list command was narrowed to enabled or to disabled entries.
pub open spec fn spec_some_filter(f: ListFilter) -> bool {
    f.enabled || f.disabled
}

/// Whether an entry appears in the listing under the given filter.
pub open spec fn spec_selected(r: RecordView, f: ListFilter) -> bool {
    !spec_some_filter(f) || (f.enabled && r.enabled) || (f.disabled && !r.enabled)
}

/// The status text appended to a listed entry: named only when no filter
/// already tells the status.
pub open spec fn spec_list_suffix(r: RecordView, f: ListFilter) -> Seq<char> {
    if !spec_some_filter(f) {
        if r.enabled {
            " enabled"@
        } else {
            " disabled"@
        }
    } else {
        ""@
    }
}

/// The listing of a registry under a filter: name, location and status of
/// each selected entry, in registry order.
pub open spec fn spec_list_lines(rs: Seq<RecordView>, f: ListFilter) -> Seq<
    (Seq<char>, Seq<char>, Seq<char>),
>
    decreases rs.len(),
{
    if rs.len() == 0 {
        Seq::empty()
    } else {
        (if spec_selected(rs[0], f) {
            seq![(rs[0].name, rs[0].location, spec_list_suffix(rs[0], f))]
        } else {
            Seq::empty()
        }) + spec_list_lines(rs.drop_first(), f)
    }
}

/// The mathematical shape of produced listing lines.
pub open spec fn lines_view(v: Seq<(String, String, String)>) -> Seq<
    (Seq<char>, Seq<char>, Seq<char>),
> {
    v.map_values(|t: (String, String, String)| (t.0@, t.1@, t.2@))
}

/// Borrows the flake half of the indexed pair mutably; the name half is
/// untouched by whatever the caller writes through the reference.
fn pair_flake_mut(v: &mut Vec<(String, Flake)>, i: usize) -> (f: &mut Flake)
    requires
        i < old(v)@.len(),
    ensures
        *f == old(v)@[i as int].1,
        final(v)@ == old(v)@.update(i as int, ((old(v)@[i as int].0, *final(f)))),
{
    let p = vstd::std_specs::vec::vec_index_mut(v, i);
    &mut p.1
}

/// The main interface of the software: the registry together with the
/// storage location it was loaded from, the chosen output styling, and
/// whether its state has been handed back for persistence.
pub struct Interface {
    /// Where the configuration file lives.
    config_path: String,
    /// The tracked flakes, in load order, names unique.
    flakes: Vec<(String, Flake)>,
    /// Whether standard output should be styled.
    stdout_style: bool,
    /// Whether standard error should be styled.
    stderr_style: bool,
    /// Whether the registry's state has been serialized for saving.
    cleaned: bool,
}

impl View for Interface {
    type V = Seq<RecordView>;

    closed spec fn view(&self) -> Seq<RecordView> {
        self.flakes@.map_values(
            |p: (String, Flake)|
                RecordView { name: p.0@, location: p.1.location@, enabled: p.1.enabled },
        )
    }
}

/// The configuration file name inside the chosen directory, appended to the
/// directory with a path separator where one is needed.
pub open spec fn spec_config_file_path(dir: Seq<char>) -> Seq<char> {
    if dir.len() == 0 {
        "config.csv"@
    } else if dir[dir.len() - 1] == '/' {
        dir + "config.csv"@
    } else {
        dir + "/"@ + "config.csv"@
    }
}

impl Interface {
    /// Where the configuration file lives.
    pub closed spec fn spec_config_path(&self) -> Seq<char> {
        self.config_path@
    }

    /// Whether standard output should be styled.
    pub closed spec fn spec_stdout_style(&self) -> bool {
        self.stdout_style
    }

    /// Whether standard error should be styled.
    pub closed spec fn spec_stderr_style(&self) -> bool {
        self.stderr_style
    }

    /// Whether the registry's state has been serialized for saving.
    pub closed spec fn spec_cleaned(&self) -> bool {
        self.cleaned
    }

    /// The registry's invariant: entry names are unique.
    pub open spec fn wf(&self) -> bool {
        unique_names(self@)
    }

    /// Creates a fresh interface over the configuration file inside
    /// `config_dir`, with no entries yet and nothing saved.
    pub fn new(config_dir: String, stdout_style: bool, stderr_style: bool) -> (r: Interface)
        ensures
            r@ == Seq::<RecordView>::empty(),
            r.wf(),
            !r.spec_cleaned(),
            r.spec_stdout_style() == stdout_style,
            r.spec_stderr_style() == stderr_style,
            r.spec_config_path() == spec_config_file_path(config_dir@),
    {
        let mut config_path = config_dir;
        let n = config_path.as_str().unicode_len();
        if n == 0 {
            config_path = String::from_str("config.csv");
        } else {
            if config_path.as_str().get_char(n - 1) != '/' {
                config_path.append("/");
            }
            config_path.append("config.csv");
        }
        let r = Interface {
            config_path,
            flakes: Vec::new(),
            stdout_style,
            stderr_style,
            cleaned: false,
        };
        proof {
            assert(r@ =~= Seq::<RecordView>::empty());
        }
        r
    }

    /// A copy of the configuration file's path.
    pub fn config_path(&self) -> (r: String)
        ensures
            r@ == self.spec_config_path(),
    {
        self.config_path.clone()
    }

    /// Whether standard output should be styled.
    pub fn stdout_style(&self) -> (r: bool)
        ensures
            r == self.spec_stdout_style(),
    {
        self.stdout_style
    }

    /// Whether standard error should be styled.
    pub fn stderr_style(&self) -> (r: bool)
        ensures
            r == self.spec_stderr_style(),
    {
        self.stderr_style
    }

    /// Whether the registry's state has been serialized for saving.
    pub fn is_cleaned(&self) -> (r: bool)
        ensures
            r == self.spec_cleaned(),
    {
        self.cleaned
    }

    /// The number of tracked flakes.
    pub fn len(&self) -> (n: usize)
        ensures
            n == self@.len(),
    {
        self.flakes.len()
    }

    /// Whether a flake of that name is tracked.
    pub fn has_flake(&self, name: &str) -> (r: bool)
        ensures
            r == has_name(self@, name@),
    {
        let mut i: usize = 0;
        while i < self.flakes.len()
            invariant
                i <= self.flakes.len(),
                self@.len() == self.flakes@.len(),
                forall|j: int| 0 <= j < i ==> (#[trigger] self@[j]).name != name@,
            decreases self.flakes.len() - i,
        {
            if str_eq(self.flakes[i].0.as_str(), name) {
                proof {
                    assert(self@[i as int].name == name@);
                }
                return true;
            }
            i += 1;
        }
        false
    }

    /// The index of the first flake of that name, when one is tracked.
    fn find_flake(&self, name: &str) -> (r: Option<usize>)
        ensures
            r matches Some(i) ==> i == find_name(self@, name@) && 0 <= i < self@.len()
                && self@[i as int].name == name@,
            r is None ==> !has_name(self@, name@),
    {
        proof {
            lemma_find_name(self@, name@);
        }
        let mut i: usize = 0;
        while i < self.flakes.len()
            invariant
                i <= self.flakes.len(),
                self@.len() == self.flakes@.len(),
                forall|j: int| 0 <= j < i ==> (#[trigger] self@[j]).name != name@,
            decreases self.flakes.len() - i,
        {
            if str_eq(self.flakes[i].0.as_str(), name) {
                proof {
                    assert(self@[i as int].name == name@);
                    lemma_find_name(self@, name@);
                }
                return Some(i);
            }
            i += 1;
        }
        None
    }

    /// Registers a new flake under a unique name, enabled, at the given
    /// (already absolute) location.  A tracked name is refused and nothing
    /// is mutated.
    pub fn add_flake(&mut self, name: String, location: String) -> (r: Result<(), Vec<Error>>)
        ensures
            has_name(old(self)@, name@) ==> (r matches Err(es) && es.deep_view() == seq![
                ErrorV::TrackedFlake(name@),
            ] && final(self)@ == old(self)@),
            !has_name(old(self)@, name@) ==> (r matches Ok(u) && final(self)@ == old(self)@.push(
                (RecordView { name: name@, location: location@, enabled: true }),
            )),
            old(self).wf() ==> final(self).wf(),
            final(self).spec_config_path() == old(self).spec_config_path(),
            final(self).spec_stdout_style() == old(self).spec_stdout_style(),
            final(self).spec_stderr_style() == old(self).spec_stderr_style(),
            final(self).spec_cleaned() == old(self).spec_cleaned(),
    {
        if self.has_flake(name.as_str()) {
            let mut es: Vec<Error> = Vec::new();
            es.push(Error::TrackedFlake(name));
            proof {
                assert(es.deep_view() =~= seq![ErrorV::TrackedFlake(es@[0]->TrackedFlake_0@)]);
            }
            return Err(es);
        }
        let ghost old_view = self@;
        let ghost nv = name@;
        let ghost lv = location@;
        self.flakes.push((name, Flake { location, enabled: true }));
        proof {
            assert(self@ =~= old_view.push(
                RecordView { name: nv, location: lv, enabled: true },
            ));
            if unique_names(old_view) {
                assert forall|i: int, j: int| 0 <= i < j < self@.len() implies (
                #[trigger] self@[i]).name != (#[trigger] self@[j]).name by {
                    if j < old_view.len() {
                    } else {
                        assert(self@[j].name == nv);
                        assert(self@[i] == old_view[i]);
                    }
                }
            }
        }
        Ok(())
    }

    /// Marks the named flake enabled; warns when it already was, and fails
    /// when the name is not tracked.
    pub fn enable_flake(&mut self, name: String) -> (r: Result<Vec<Warning>, Vec<Error>>)
        ensures
            !has_name(old(self)@, name@) ==> (r matches Err(es) && es.deep_view() == seq![
                ErrorV::MissingFlake(name@),
            ] && final(self)@ == old(self)@),
            has_name(old(self)@, name@) ==> (r matches Ok(ws) && ({
                let k = find_name(old(self)@, name@);
                &&& final(self)@ == spec_set_enabled(old(self)@, name@, true)
                &&& ws.deep_view() == (if old(self)@[k].enabled {
                    seq![WarningV::AlreadyEnabled(name@)]
                } else {
                    Seq::<WarningV>::empty()
                })
            })),
            old(self).wf() ==> final(self).wf(),
            final(self).spec_config_path() == old(self).spec_config_path(),
            final(self).spec_stdout_style() == old(self).spec_stdout_style(),
            final(self).spec_stderr_style() == old(self).spec_stderr_style(),
            final(self).spec_cleaned() == old(self).spec_cleaned(),
    {
        self.set_enabled(name, true)
    }

    /// Marks the named flake disabled; warns when it already was, and fails
    /// when the name is not tracked.
    pub fn disable_flake(&mut self, name: String) -> (r: Result<Vec<Warning>, Vec<Error>>)
        ensures
            !has_name(old(self)@, name@) ==> (r matches Err(es) && es.deep_view() == seq![
                ErrorV::MissingFlake(name@),
            ] && final(self)@ == old(self)@),
            has_name(old(self)@, name@) ==> (r matches Ok(ws) && ({
                let k = find_name(old(self)@, name@);
                &&& final(self)@ == spec_set_enabled(old(self)@, name@, false)
                &&& ws.deep_view() == (if !old(self)@[k].enabled {
                    seq![WarningV::AlreadyDisabled(name@)]
                } else {
                    Seq::<WarningV>::empty()
                })
            })),
            old(self).wf() ==> final(self).wf(),
            final(self).spec_config_path() == old(self).spec_config_path(),
            final(self).spec_stdout_style() == old(self).spec_stdout_style(),
            final(self).spec_stderr_style() == old(self).spec_stderr_style(),
            final(self).spec_cleaned() == old(self).spec_cleaned(),
    {
        self.set_enabled(name, false)
    }

    /// The shared body of enable and disable: sets the named flake's flag
    /// and warns when the flag already had the asked-for value.
    fn set_enabled(&mut self, name: String, value: bool) -> (r: Result<Vec<Warning>, Vec<Error>>)
        ensures
            !has_name(old(self)@, name@) ==> (r matches Err(es) && es.deep_view() == seq![
                ErrorV::MissingFlake(name@),
            ] && final(self)@ == old(self)@),
            has_name(old(self)@, name@) ==> (r matches Ok(ws) && ({
                let k = find_name(old(self)@, name@);
                &&& final(self)@ == spec_set_enabled(old(self)@, name@, value)
                &&& ws.deep_view() == (if old(self)@[k].enabled == value {
                    seq![
                        if value {
                            WarningV::AlreadyEnabled(name@)
                        } else {
                            WarningV::AlreadyDisabled(name@)
                        },
                    ]
                } else {
                    Seq::<WarningV>::empty()
                })
            })),
            old(self).wf() ==> final(self).wf(),
            final(self).spec_config_path() == old(self).spec_config_path(),
            final(self).spec_stdout_style() == old(self).spec_stdout_style(),
            final(self).spec_stderr_style() == old(self).spec_stderr_style(),
            final(self).spec_cleaned() == old(self).spec_cleaned(),
    {
        let ghost old_view = self@;
        match self.find_flake(name.as_str()) {
            Some(i) => {
                let should_warn = self.flakes[i].1.enabled == value;
                let p = vstd::std_specs::vec::vec_index_mut(&mut self.flakes, i);
                p.1.enabled = value;
                proof {
                    assert(self@ =~= old_view.update(
                        i as int,
                        RecordView {
                            name: old_view[i as int].name,
                            location: old_view[i as int].location,
                            enabled: value,
                        },
                    ));
                    if unique_names(old_view) {
                        assert forall|a: int, b: int| 0 <= a < b < self@.len() implies (
                        #[trigger] self@[a]).name != (#[trigger] self@[b]).name by {
                            assert(self@[a].name == old_view[a].name);
                            assert(self@[b].name == old_view[b].name);
                        }
                    }
                }
                let mut ws: Vec<Warning> = Vec::new();
                if should_warn {
                    if value {
                        ws.push(Warning::AlreadyEnabled(name));
                    } else {
                        ws.push(Warning::AlreadyDisabled(name));
                    }
                }
                proof {
                    if old_view[find_name(old_view, name@) as int].enabled == value {
                        assert(ws.deep_view() =~= seq![
                            if value {
                                WarningV::AlreadyEnabled(name@)
                            } else {
                                WarningV::AlreadyDisabled(name@)
                            },
                        ]);
                    } else {
                        assert(ws.deep_view() =~= Seq::<WarningV>::empty());
                    }
                }
                Ok(ws)
            }
            None => {
                let mut es: Vec<Error> = Vec::new();
                es.push(Error::MissingFlake(name));
                proof {
                    assert(es.deep_view() =~= seq![ErrorV::MissingFlake(name@)]);
                }
                Err(es)
            }
        }
    }

    /// Forgets the named flake.  Removing an absent name is not an error,
    /// only a warning.
    pub fn remove_flake(&mut self, name: String) -> (r: Result<Vec<Warning>, Vec<Error>>)
        ensures
            !has_name(old(self)@, name@) ==> (r matches Ok(ws) && ws.deep_view() == seq![
                WarningV::NotTracked(name@),
            ] && final(self)@ == old(self)@),
            has_name(old(self)@, name@) ==> (r matches Ok(ws) && ws.deep_view()
                == Seq::<WarningV>::empty() && final(self)@ == old(self)@.remove(
                find_name(old(self)@, name@),
            )),
            old(self).wf() ==> final(self).wf(),
            final(self).spec_config_path() == old(self).spec_config_path(),
            final(self).spec_stdout_style() == old(self).spec_stdout_style(),
            final(self).spec_stderr_style() == old(self).spec_stderr_style(),
            final(self).spec_cleaned() == old(self).spec_cleaned(),
    {
        let ghost old_view = self@;
        match self.find_flake(name.as_str()) {
            Some(i) => {
                self.flakes.remove(i);
                proof {
                    assert(self@ =~= old_view.remove(i as int));
                    old_view.remove_ensures(i as int);
                    if unique_names(old_view) {
                        assert forall|a: int, b: int| 0 <= a < b < self@.len() implies (
                        #[trigger] self@[a]).name != (#[trigger] self@[b]).name by {
                            if b < i {
                            } else if a < i {
                                assert(self@[a] == old_view[a]);
                                assert(self@[b] == old_view[b + 1]);
                            } else {
                                assert(self@[a] == old_view[a + 1]);
                                assert(self@[b] == old_view[b + 1]);
                            }
                        }
                    }
                }
                let ws: Vec<Warning> = Vec::new();
                proof {
                    assert(ws.deep_view() =~= Seq::<WarningV>::empty());
                }
                Ok(ws)
            }
            None => {
                let mut ws: Vec<Warning> = Vec::new();
                ws.push(Warning::NotTracked(name));
                proof {
                    assert(ws.deep_view() =~= seq![WarningV::NotTracked(name@)]);
                }
                Ok(ws)
            }
        }
    }

    /// A shared reference to the tracked flake of that name, or an error.
    pub fn get_flake(&self, name: &str) -> (r: Result<&Flake, Vec<Error>>)
        ensures
            has_name(self@, name@) ==> (r matches Ok(f) && f@.location == self@[find_name(
                self@,
                name@,
            )].location && f@.enabled == self@[find_name(self@, name@)].enabled),
            !has_name(self@, name@) ==> (r matches Err(es) && es.deep_view() == seq![
                ErrorV::MissingFlake(name@),
            ]),
    {
        match self.find_flake(name) {
            Some(i) => Ok(&self.flakes[i].1),
            None => {
                let mut es: Vec<Error> = Vec::new();
                es.push(Error::MissingFlake(String::from_str(name)));
                proof {
                    assert(es.deep_view() =~= seq![ErrorV::MissingFlake(name@)]);
                }
                Err(es)
            }
        }
    }
    /// Loads the parsed content of the configuration file into an empty
    /// registry.  A record repeating an already-seen name is dropped with a
    /// warning; a malformed file is an internal error and loads nothing.
    pub fn init(&mut self, content: &str) -> (r: Result<Vec<Warning>, Vec<Error>>)
        requires
            old(self)@.len() == 0,
        ensures
            (match spec_parse(content@) {
                Ok(records) => r matches Ok(ws) && final(self)@ == spec_dedup(records)
                    && ws.deep_view() == spec_dup_warnings(records) && final(self).wf(),
                Err(e) => r matches Err(es) && es.deep_view() == seq![
                    ErrorV::Internal(crate::codec::spec_parse_error_msg(e)),
                ] && final(self)@ == old(self)@,
            }),
            final(self).spec_config_path() == old(self).spec_config_path(),
            final(self).spec_stdout_style() == old(self).spec_stdout_style(),
            final(self).spec_stderr_style() == old(self).spec_stderr_style(),
            final(self).spec_cleaned() == old(self).spec_cleaned(),
    {
        let records = match parse_config(content) {
            Ok(v) => v,
            Err(e) => {
                let mut es: Vec<Error> = Vec::new();
                es.push(Error::Internal(e.msg()));
                proof {
                    assert(es.deep_view() =~= seq![
                        ErrorV::Internal(crate::codec::spec_parse_error_msg(e)),
                    ]);
                }
                return Err(es);
            }
        };
        let ghost rviews = records.deep_view();
        let mut ws: Vec<Warning> = Vec::new();
        proof {
            assert(rviews.skip(0) =~= rviews);
            assert(ws.deep_view() =~= Seq::<WarningV>::empty());
            assert(self@ =~= Seq::<RecordView>::empty());
            assert(spec_dup_warnings(rviews) =~= ws.deep_view() + dup_warn_acc(
                self@,
                rviews.skip(0),
            ));
        }
        let mut i: usize = 0;
        while i < records.len()
            invariant
                i <= records.len(),
                rviews == records.deep_view(),
                rviews.len() == records.len(),
                spec_dedup(rviews) == dedup_acc(self@, rviews.skip(i as int)),
                spec_dup_warnings(rviews) == ws.deep_view() + dup_warn_acc(
                    self@,
                    rviews.skip(i as int),
                ),
                unique_names(self@),
                self.spec_config_path() == old(self).spec_config_path(),
                self.spec_stdout_style() == old(self).spec_stdout_style(),
                self.spec_stderr_style() == old(self).spec_stderr_style(),
                self.spec_cleaned() == old(self).spec_cleaned(),
            decreases records.len() - i,
        {
            proof {
                assert(rviews.skip(i as int)[0] == rviews[i as int]);
                assert(rviews.skip(i as int).drop_first() =~= rviews.skip(i + 1));
                assert(records[i as int]@ == rviews[i as int]);
            }
            let nm = records[i].name.clone();
            let ghost ws0 = ws.deep_view();
            let ghost self0 = self@;
            if self.has_flake(nm.as_str()) {
                ws.push(
                    Warning::DuplicateOnLoad { name: nm, discarded: records[i].location.clone() },
                );
                proof {
                    assert(ws.deep_view() =~= ws0.push(
                        WarningV::DuplicateOnLoad {
                            name: rviews[i as int].name,
                            discarded: rviews[i as int].location,
                        },
                    ));
                    assert(ws.deep_view() + dup_warn_acc(self@, rviews.skip(i + 1)) =~= ws0 + (
                    seq![
                        WarningV::DuplicateOnLoad {
                            name: rviews[i as int].name,
                            discarded: rviews[i as int].location,
                        },
                    ] + dup_warn_acc(self@, rviews.skip(i + 1))));
                }
            } else {
                let loc = records[i].location.clone();
                let en = records[i].enabled;
                self.flakes.push((nm, Flake { location: loc, enabled: en }));
                proof {
                    assert(self@ =~= self0.push(rviews[i as int]));
                    assert forall|a: int, b: int| 0 <= a < b < self@.len() implies (
                    #[trigger] self@[a]).name != (#[trigger] self@[b]).name by {
                        if b < self0.len() {
                        } else {
                            assert(self@[b].name == rviews[i as int].name);
                            assert(self@[a] == self0[a]);
                        }
                    }
                }
            }
            i += 1;
        }
        proof {
            assert(rviews.skip(i as int) =~= Seq::<RecordView>::empty());
            assert(spec_dup_warnings(rviews) =~= ws.deep_view());
        }
        Ok(ws)
    }

    /// Serializes the registry for saving and marks it cleaned.  The text
    /// must be written to a temporary file beside the configuration file and
    /// atomically renamed over it, so the file is never seen half-written.
    pub fn clean(&mut self) -> (out: String)
        ensures
            out@ == spec_config_text(old(self)@),
            final(self)@ == old(self)@,
            final(self).spec_cleaned(),
            final(self).spec_config_path() == old(self).spec_config_path(),
            final(self).spec_stdout_style() == old(self).spec_stdout_style(),
            final(self).spec_stderr_style() == old(self).spec_stderr_style(),
            old(self).wf() ==> final(self).wf(),
    {
        let mut records: Vec<NamedFlake> = Vec::new();
        proof {
            assert(records.deep_view() =~= self@.take(0));
        }
        let mut i: usize = 0;
        while i < self.flakes.len()
            invariant
                i <= self.flakes.len(),
                self@.len() == self.flakes@.len(),
                self == old(self),
                records.deep_view() == self@.take(i as int),
            decreases self.flakes.len() - i,
        {
            let ghost rec0 = records.deep_view();
            let nm = self.flakes[i].0.clone();
            let loc = self.flakes[i].1.location.clone();
            let en = self.flakes[i].1.enabled;
            proof {
                assert(self@[i as int] == RecordView { name: nm@, location: loc@, enabled: en });
            }
            let ghost nv = nm@;
            let ghost lv = loc@;
            records.push(NamedFlake { name: nm, location: loc, enabled: en });
            proof {
                assert(records.deep_view() =~= rec0.push(
                    RecordView { name: nv, location: lv, enabled: en },
                ));
                assert(records.deep_view() =~= self@.take(i + 1));
            }
            i += 1;
        }
        proof {
            assert(records.deep_view() =~= self@);
        }
        let out = write_config(&records);
        self.cleaned = true;
        out
    }

    /// The lines the list command prints: one per selected entry, with the
    /// entry's status appended when no filter narrowed the listing.
    pub fn list_flakes(&self, filter: ListFilter) -> (r: Vec<(String, String, String)>)
        ensures
            lines_view(r@) == spec_list_lines(self@, filter),
    {
        let mut r: Vec<(String, String, String)> = Vec::new();
        let some_filter = filter.enabled || filter.disabled;
        proof {
            assert(self@.skip(0) =~= self@);
            assert(lines_view(r@) =~= Seq::<(Seq<char>, Seq<char>, Seq<char>)>::empty());
        }
        let mut i: usize = 0;
        while i < self.flakes.len()
            invariant
                i <= self.flakes.len(),
                self@.len() == self.flakes@.len(),
                some_filter == spec_some_filter(filter),
                spec_list_lines(self@, filter) == lines_view(r@) + spec_list_lines(
                    self@.skip(i as int),
                    filter,
                ),
            decreases self.flakes.len() - i,
        {
            proof {
                assert(self@.skip(i as int)[0] == self@[i as int]);
                assert(self@.skip(i as int).drop_first() =~= self@.skip(i + 1));
            }
            let enabled = self.flakes[i].1.enabled;
            let selected = !some_filter || (filter.enabled && enabled) || (filter.disabled
                && !enabled);
            if selected {
                let ghost r0 = r@;
                let nm = self.flakes[i].0.clone();
                let loc = self.flakes[i].1.location.clone();
                let suffix = if !some_filter {
                    if enabled {
                        String::from_str(" enabled")
                    } else {
                        String::from_str(" disabled")
                    }
                } else {
                    String::from_str("")
                };
                r.push((nm, loc, suffix));
                proof {
                    assert(lines_view(r@) =~= lines_view(r0).push(
                        (
                            self@[i as int].name,
                            self@[i as int].location,
                            spec_list_suffix(self@[i as int], filter),
                        ),
                    ));
                    assert(lines_view(r@) + spec_list_lines(self@.skip(i + 1), filter)
                        =~= lines_view(r0) + (seq![
                        (
                            self@[i as int].name,
                            self@[i as int].location,
                            spec_list_suffix(self@[i as int], filter),
                        ),
                    ] + spec_list_lines(self@.skip(i + 1), filter)));
                }
            }
            i += 1;
        }
        proof {
            assert(self@.skip(i as int) =~= Seq::<RecordView>::empty());
        }
        r
    }

    /// The named flake's location and status, for the info command.
    pub fn info_flake(&self, name: String) -> (r: Result<(String, bool), Vec<Error>>)
        ensures
            has_name(self@, name@) ==> (r matches Ok(p) && p.0@ == self@[find_name(
                self@,
                name@,
            )].location && p.1 == self@[find_name(self@, name@)].enabled),
            !has_name(self@, name@) ==> (r matches Err(es) && es.deep_view() == seq![
                ErrorV::MissingFlake(name@),
            ]),
    {
        match self.get_flake(name.as_str()) {
            Ok(f) => Ok((f.location.clone(), f.enabled)),
            Err(e) => Err(e),
        }
    }

    /// Plans an update batch.  With a name, the single named entry is the
    /// target when it is enabled; naming a disabled entry is a deliberate
    /// no-op with an empty plan; an untracked name fails.  With no name,
    /// every enabled entry is a target, in registry order.
    pub fn update_flakes(&self, name: Option<String>) -> (r: Result<BatchUpdater, Vec<Error>>)
        ensures
            (match name {
                Some(n) => {
                    &&& !has_name(self@, n@) ==> (r matches Err(es) && es.deep_view() == seq![
                        ErrorV::NoFlake(n@),
                    ])
                    &&& has_name(self@, n@) ==> (r matches Ok(b) && b@.next == 0
                        && b@.failures.len() == 0 && b.wf() && b@.targets == ({
                        let k = find_name(self@, n@);
                        if self@[k].enabled {
                            seq![(self@[k].name, self@[k].location)]
                        } else {
                            Seq::<(Seq<char>, Seq<char>)>::empty()
                        }
                    }))
                },
                None => r matches Ok(b) && b@.next == 0 && b@.failures.len() == 0 && b.wf()
                    && b@.targets == enabled_targets(self@),
            }),
    {
        match name {
            Some(n) => {
                match self.find_flake(n.as_str()) {
                    Some(i) => {
                        let mut ts: Vec<(String, String)> = Vec::new();
                        if self.flakes[i].1.enabled {
                            ts.push(
                                (self.flakes[i].0.clone(), self.flakes[i].1.location.clone()),
                            );
                            proof {
                                assert(targets_view(ts@) =~= seq![
                                    (self@[i as int].name, self@[i as int].location),
                                ]);
                            }
                        } else {
                            proof {
                                assert(targets_view(ts@) =~= Seq::<(Seq<char>, Seq<char>)>::empty());
                            }
                        }
                        Ok(BatchUpdater::new(ts))
                    }
                    None => {
                        let mut es: Vec<Error> = Vec::new();
                        es.push(Error::NoFlake(n));
                        proof {
                            assert(es.deep_view() =~= seq![ErrorV::NoFlake(es@[0]->NoFlake_0@)]);
                        }
                        Err(es)
                    }
                }
            }
            None => {
                let mut ts: Vec<(String, String)> = Vec::new();
                proof {
                    assert(self@.skip(0) =~= self@);
                    assert(targets_view(ts@) =~= Seq::<(Seq<char>, Seq<char>)>::empty());
                }
                let mut i: usize = 0;
                while i < self.flakes.len()
                    invariant
                        i <= self.flakes.len(),
                        self@.len() == self.flakes@.len(),
                        enabled_targets(self@) == targets_view(ts@) + enabled_targets(
                            self@.skip(i as int),
                        ),
                    decreases self.flakes.len() - i,
                {
                    proof {
                        assert(self@.skip(i as int)[0] == self@[i as int]);
                        assert(self@.skip(i as int).drop_first() =~= self@.skip(i + 1));
                    }
                    if self.flakes[i].1.enabled {
                        let ghost ts0 = ts@;
                        ts.push((self.flakes[i].0.clone(), self.flakes[i].1.location.clone()));
                        proof {
                            assert(targets_view(ts@) =~= targets_view(ts0).push(
                                (self@[i as int].name, self@[i as int].location),
                            ));
                            assert(targets_view(ts@) + enabled_targets(self@.skip(i + 1))
                                =~= targets_view(ts0) + (seq![
                                (self@[i as int].name, self@[i as int].location),
                            ] + enabled_targets(self@.skip(i + 1))));
                        }
                    }
                    i += 1;
                }
                proof {
                    assert(self@.skip(i as int) =~= Seq::<RecordView>::empty());
                }
                Ok(BatchUpdater::new(ts))
            }
        }
    }

    /// A mutable reference to the tracked flake of that name, or an error.
    /// Through the reference a caller may change the flake's location or
    /// flag, never its name, so uniqueness survives any use of it.
    pub fn get_flake_mut(&mut self, name: &str) -> (r: Result<&mut Flake, Vec<Error>>)
        ensures
            has_name(old(self)@, name@) ==> (r matches Ok(f) && ({
                let k = find_name(old(self)@, name@);
                &&& (*f)@.location == old(self)@[k].location
                &&& (*f)@.enabled == old(self)@[k].enabled
                &&& final(self)@ == old(self)@.update(
                    k,
                    (RecordView {
                        name: old(self)@[k].name,
                        location: (*final(f))@.location,
                        enabled: (*final(f))@.enabled,
                    }),
                )
            })),
            !has_name(old(self)@, name@) ==> (r matches Err(es) && es.deep_view() == seq![
                ErrorV::MissingFlake(name@),
            ] && final(self)@ == old(self)@),
            old(self).wf() ==> final(self).wf(),
            final(self).spec_config_path() == old(self).spec_config_path(),
            final(self).spec_stdout_style() == old(self).spec_stdout_style(),
            final(self).spec_stderr_style() == old(self).spec_stderr_style(),
            final(self).spec_cleaned() == old(self).spec_cleaned(),
    {
        match self.find_flake(name) {
            Some(i) => {
                proof {
                    let v0 = self@;
                    let fl0 = self.flakes@;
                    if unique_names(v0) {
                        assert forall|p: (String, Flake), itf2: Interface|
                            #![trigger itf2@, fl0.update(i as int, p)]
                            (itf2.flakes@ == fl0.update(i as int, p) && p.0@ == fl0[i as int].0@)
                                implies unique_names(itf2@) by {
                            assert forall|a: int, b: int| 0 <= a < b < itf2@.len() implies (
                            #[trigger] itf2@[a]).name != (#[trigger] itf2@[b]).name by {
                                assert(itf2@[a].name == itf2.flakes@[a].0@);
                                assert(itf2@[b].name == itf2.flakes@[b].0@);
                                assert(fl0.update(i as int, p)[a].0@ == fl0[a].0@);
                                assert(fl0.update(i as int, p)[b].0@ == fl0[b].0@);
                                assert(v0[a].name == fl0[a].0@);
                                assert(v0[b].name == fl0[b].0@);
                            }
                        }
                    }
                }
                Ok(pair_flake_mut(&mut self.flakes, i))
            }
            None => {
                let mut es: Vec<Error> = Vec::new();
                es.push(Error::MissingFlake(String::from_str(name)));
                proof {
                    assert(es.deep_view() =~= seq![ErrorV::MissingFlake(name@)]);
                }
                Err(es)
            }
        }
    }
}

proof fn lemma_find_name_same_names(rs1: Seq<RecordView>, rs2: Seq<RecordView>, n: Seq<char>)
    requires
        rs1.len() == rs2.len(),
        forall|j: int| 0 <= j < rs1.len() ==> (#[trigger] rs1[j]).name == (#[trigger] rs2[j]).name,
    ensures
        find_name(rs1, n) == find_name(rs2, n),
    decreases rs1.len(),
{
    if rs1.len() == 0 {
    } else {
        assert(rs2[0].name == rs1[0].name);
        assert forall|j: int| 0 <= j < rs1.drop_first().len() implies (
        #[trigger] rs1.drop_first()[j]).name == (#[trigger] rs2.drop_first()[j]).name by {
            assert(rs1.drop_first()[j] == rs1[j + 1]);
            assert(rs2.drop_first()[j] == rs2[j + 1]);
        }
        lemma_find_name_same_names(rs1.drop_first(), rs2.drop_first(), n);
    }
}

proof fn lemma_dedup_acc_unique(acc: Seq<RecordView>, rest: Seq<RecordView>)
    requires
        unique_names(acc + rest),
    ensures
        dedup_acc(acc, rest) == acc + rest,
        dup_warn_acc(acc, rest).len() == 0,
    decreases rest.len(),
{
    if rest.len() == 0 {
        assert(acc + rest =~= acc);
    } else {
        if has_name(acc, rest[0].name) {
            let i = choose|i: int| 0 <= i < acc.len() && (#[trigger] acc[i]).name == rest[0].name;
            assert((acc + rest)[i] == acc[i]);
            assert((acc + rest)[acc.len() as int] == rest[0]);
            assert(false);
        }
        assert(acc.push(rest[0]) + rest.drop_first() =~= acc + rest);
        lemma_dedup_acc_unique(acc.push(rest[0]), rest.drop_first());
    }
}

/// Round trip: a registry with unique names reloads from the text it
/// persists with exactly the same entries — same names, locations and
/// enabled flags, in the same order — and the reload drops nothing and
/// warns about nothing.
pub proof fn lemma_registry_round_trip(rs: Seq<RecordView>)
    requires
        unique_names(rs),
    ensures
        spec_parse(spec_config_text(rs)) == Ok::<Seq<RecordView>, crate::codec::ParseError>(rs),
        spec_dedup(rs) == rs,
        spec_dup_warnings(rs).len() == 0,
{
    crate::codec::lemma_config_round_trip(rs);
    assert(Seq::<RecordView>::empty() + rs =~= rs);
    lemma_dedup_acc_unique(Seq::empty(), rs);
}

/// Disabling twice: after the first disable the entry's flag is false; the
/// second disable leaves the registry exactly as it was; and the entry is
/// then already disabled, which is precisely the state in which
/// `disable_flake`'s contract has the call emit its one redundancy warning.
pub proof fn lemma_disable_idempotent(rs: Seq<RecordView>, n: Seq<char>)
    requires
        has_name(rs, n),
    ensures
        ({
            let s1 = spec_set_enabled(rs, n, false);
            &&& has_name(s1, n)
            &&& find_name(s1, n) == find_name(rs, n)
            &&& !s1[find_name(s1, n)].enabled
            &&& spec_set_enabled(s1, n, false) == s1
        }),
{
    lemma_find_name(rs, n);
    let k = find_name(rs, n);
    let s1 = spec_set_enabled(rs, n, false);
    assert forall|j: int| 0 <= j < rs.len() implies (#[trigger] rs[j]).name == (
    #[trigger] s1[j]).name by {}
    lemma_find_name_same_names(rs, s1, n);
    lemma_find_name(s1, n);
    assert(!s1[k].enabled);
    assert(spec_set_enabled(s1, n, false) =~= s1);
}

/// Uniqueness: after an add of `n` succeeds, `n` is tracked — a second add
/// of `n` therefore meets `add_flake`'s duplicate-name case, which returns
/// the error and leaves the registry unchanged — and the registry still
/// maps `n` to the first add's location, enabled.
pub proof fn lemma_add_refuses_duplicate(rs: Seq<RecordView>, n: Seq<char>, l1: Seq<char>)
    requires
        !has_name(rs, n),
    ensures
        ({
            let s1 = rs.push(RecordView { name: n, location: l1, enabled: true });
            &&& has_name(s1, n)
            &&& s1[find_name(s1, n)].location == l1
            &&& s1[find_name(s1, n)].enabled
        }),
{
    let s1 = rs.push(RecordView { name: n, location: l1, enabled: true });
    assert(s1[rs.len() as int].name == n);
    lemma_find_name(s1, n);
    let k = find_name(s1, n);
    if k < rs.len() {
        assert(rs[k] == s1[k]);
        assert(false);
    }
}

} // verus!
