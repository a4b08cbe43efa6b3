//! Keeping track of which configurations are still being loaded.
//!
//! Every loader registers under a name before loading starts and reports back once when it
//! is done. The simulation runs when all that registered have reported.

use vstd::prelude::*;
use vstd::string::StringExecFns;

verus! {

/// Where the simulation stands between start-up and its first day.
#[derive(Clone, Copy, PartialEq, Eq, Structural, Debug)]
pub enum SimulationState {
    ConfigSelection,
    LoadingConfig,
    Running,
}

/// Whether a loader has reported back.
#[derive(Clone, Copy, PartialEq, Eq, Structural, Debug)]
pub enum LoadingReader {
    Waiting,
    Recived,
}

/// Notice that a loader of the given name exists.
#[derive(Debug)]
pub struct RegisterConfigReaderEvent(pub String);

/// Notice that the loader of the given name is done.
#[derive(Debug)]
pub struct ConfigReaderFinishedEvent(pub String);

/// The folder of the configuration that was chosen.
#[derive(Debug)]
pub struct SelectedConfigPath(pub String);

/// A loader and its state.
#[derive(Debug)]
pub struct ConfigReader {
    pub name: String,
    pub state: LoadingReader,
}

/// All loaders that have registered, in the order they did.
#[derive(Debug)]
pub struct AllConfigReaders {
    pub readers: Vec<ConfigReader>,
}

/// What can go wrong between loaders and their notices. Each names the place of the
/// offending notice in its list.
#[derive(Clone, Copy, PartialEq, Eq, Structural, Debug)]
pub enum ConfigError {
    /// A name was registered a second time.
    RegisteredTwice { notice: usize },
    /// A loader reported back that never registered.
    NeverRegistered { notice: usize },
    /// A loader reported back a second time.
    FinishedTwice { notice: usize },
}

/// A loader as the contracts see it: its name as a list of characters, and its state.
pub struct Loader {
    pub name: Seq<char>,
    pub state: LoadingReader,
}

/// Where a run of notices has got to: the loaders as they stand, and the error that
/// stopped the run, if one did.
pub struct Progress {
    pub list: Seq<Loader>,
    pub error: Option<ConfigError>,
}

/// The place among the first `n` loaders of the first one with the given name.
pub open spec fn position(list: Seq<Loader>, name: Seq<char>, n: int) -> Option<int>
    decreases n,
{
    if n <= 0 {
        None
    } else {
        match position(list, name, n - 1) {
            Some(i) => Some(i),
            None => if list[n - 1].name == name {
                Some(n - 1)
            } else {
                None
            },
        }
    }
}

/// Whether a loader of the given name is on the list.
pub open spec fn is_listed(list: Seq<Loader>, name: Seq<char>) -> bool {
    position(list, name, list.len() as int) is Some
}

/// Whether every loader has reported back.
pub open spec fn all_recived(list: Seq<Loader>) -> bool {
    forall|i: int| 0 <= i < list.len() ==> (#[trigger] list[i]).state == LoadingReader::Recived
}

/// The names that registrations carry.
pub open spec fn names_registered(events: Seq<RegisterConfigReaderEvent>) -> Seq<Seq<char>> {
    Seq::new(events.len(), |k: int| events[k].0@)
}

/// The names that reports carry.
pub open spec fn names_finished(events: Seq<ConfigReaderFinishedEvent>) -> Seq<Seq<char>> {
    Seq::new(events.len(), |k: int| events[k].0@)
}

/// The list after a loader of the given name asked to be registered: a new name joins at
/// the end as waiting, a name already on the list changes nothing.
pub open spec fn registered(list: Seq<Loader>, name: Seq<char>) -> Seq<Loader> {
    if is_listed(list, name) {
        list
    } else {
        list.push(Loader { name, state: LoadingReader::Waiting })
    }
}

/// Where the first `n` registrations get to, taken one after the other. A name that is on
/// the list by then, from before or from an earlier registration, stops the run with its
/// place among the notices; the registrations before it stay.
pub open spec fn after_registrations(list: Seq<Loader>, names: Seq<Seq<char>>, n: int) -> Progress
    decreases n,
{
    if n <= 0 {
        Progress { list, error: None }
    } else {
        let before = after_registrations(list, names, n - 1);
        if before.error is Some {
            before
        } else if is_listed(before.list, names[n - 1]) {
            Progress {
                list: before.list,
                error: Some(ConfigError::RegisteredTwice { notice: (n - 1) as usize }),
            }
        } else {
            Progress { list: registered(before.list, names[n - 1]), error: None }
        }
    }
}

/// Where the first `n` reports get to, taken one after the other. A report from a loader
/// that is not on the list, or from one that has reported already, stops the run with its
/// place among the notices; the reports before it stay taken. Any other report marks its
/// loader as having reported and leaves the others as they are.
pub open spec fn after_reports(list: Seq<Loader>, names: Seq<Seq<char>>, n: int) -> Progress
    decreases n,
{
    if n <= 0 {
        Progress { list, error: None }
    } else {
        let before = after_reports(list, names, n - 1);
        if before.error is Some {
            before
        } else {
            match position(before.list, names[n - 1], before.list.len() as int) {
                None => Progress {
                    list: before.list,
                    error: Some(ConfigError::NeverRegistered { notice: (n - 1) as usize }),
                },
                Some(i) => if before.list[i].state == LoadingReader::Recived {
                    Progress {
                        list: before.list,
                        error: Some(ConfigError::FinishedTwice { notice: (n - 1) as usize }),
                    }
                } else {
                    Progress {
                        list: before.list.update(
                            i,
                            Loader { name: before.list[i].name, state: LoadingReader::Recived },
                        ),
                        error: None,
                    }
                },
            }
        }
    }
}

/// Where the simulation stands with the given loaders: it runs when all have reported.
pub open spec fn state_with(list: Seq<Loader>) -> SimulationState {
    if all_recived(list) {
        SimulationState::Running
    } else {
        SimulationState::LoadingConfig
    }
}

/// Whether the `k`-th name is new: not on the list, and not among the names before it.
pub open spec fn is_new(list: Seq<Loader>, names: Seq<Seq<char>>, k: int) -> bool {
    !is_listed(list, names[k]) && forall|j: int| 0 <= j < k ==> #[trigger] names[j] != names[k]
}

/// Whether each of the first `n` names is new.
pub open spec fn all_new(list: Seq<Loader>, names: Seq<Seq<char>>, n: int) -> bool {
    forall|k: int| 0 <= k < n ==> #[trigger] is_new(list, names, k)
}

/// The list with the first `n` names added at the end, each as waiting.
pub open spec fn with_waiting(list: Seq<Loader>, names: Seq<Seq<char>>, n: int) -> Seq<Loader> {
    list + Seq::new(n as nat, |k: int| Loader { name: names[k], state: LoadingReader::Waiting })
}

/// What [`position`] finds: the first loader of that name, and none only where no loader
/// has the name.
pub proof fn lemma_position(list: Seq<Loader>, name: Seq<char>, n: int)
    requires
        0 <= n <= list.len(),
    ensures
        position(list, name, n) matches Some(i) ==> 0 <= i < n && list[i].name == name
            && forall|j: int| 0 <= j < i ==> (#[trigger] list[j]).name != name,
        position(list, name, n) is None ==> forall|j: int|
            0 <= j < n ==> (#[trigger] list[j]).name != name,
    decreases n,
{
    if n > 0 {
        lemma_position(list, name, n - 1);
    }
}

/// Once a name is found among the first `n` loaders, it stays the first among any more.
pub proof fn lemma_position_stays(list: Seq<Loader>, name: Seq<char>, n: int, m: int)
    requires
        position(list, name, n) is Some,
        n <= m,
    ensures
        position(list, name, m) == position(list, name, n),
    decreases m - n,
{
    if n < m {
        lemma_position_stays(list, name, n, m - 1);
    }
}

/// Where a name stands depends on the names alone.
pub proof fn lemma_position_by_names(first: Seq<Loader>, second: Seq<Loader>, name: Seq<char>, n: int)
    requires
        0 <= n <= first.len(),
        first.len() == second.len(),
        forall|i: int| 0 <= i < first.len() ==> (#[trigger] first[i]).name == second[i].name,
    ensures
        position(first, name, n) == position(second, name, n),
    decreases n,
{
    if n > 0 {
        lemma_position_by_names(first, second, name, n - 1);
        assert(first[n - 1].name == second[n - 1].name);
    }
}

/// A run that was stopped stays where it stopped.
pub proof fn lemma_registrations_stop(list: Seq<Loader>, names: Seq<Seq<char>>, n: int, m: int)
    requires
        after_registrations(list, names, n).error is Some,
        n <= m,
    ensures
        after_registrations(list, names, m) == after_registrations(list, names, n),
    decreases m - n,
{
    if n < m {
        lemma_registrations_stop(list, names, n, m - 1);
    }
}

/// A run that was stopped stays where it stopped.
pub proof fn lemma_reports_stop(list: Seq<Loader>, names: Seq<Seq<char>>, n: int, m: int)
    requires
        after_reports(list, names, n).error is Some,
        n <= m,
    ensures
        after_reports(list, names, m) == after_reports(list, names, n),
    decreases m - n,
{
    if n < m {
        lemma_reports_stop(list, names, n, m - 1);
    }
}

/// A run of registrations goes through exactly where every name is new: not on the list
/// before, and not repeated. It then adds every name as waiting. A run that is stopped is
/// stopped by the first name that is not new, and has added those before it.
pub proof fn lemma_registrations(list: Seq<Loader>, names: Seq<Seq<char>>, n: int)
    requires
        0 <= n <= names.len(),
    ensures
        after_registrations(list, names, n).error is None <==> all_new(list, names, n),
        after_registrations(list, names, n).error is None ==> after_registrations(
            list,
            names,
            n,
        ).list == with_waiting(list, names, n),
        after_registrations(list, names, n).error matches Some(error) ==> exists|k: int|
            0 <= k < n && error == (ConfigError::RegisteredTwice { notice: k as usize })
                && all_new(list, names, k) && !#[trigger] is_new(list, names, k)
                && after_registrations(list, names, n).list == with_waiting(list, names, k),
    decreases n,
{
    if n == 0 {
        assert(with_waiting(list, names, 0) =~= list);
    } else {
        lemma_registrations(list, names, n - 1);
        let before = after_registrations(list, names, n - 1);
        let after = after_registrations(list, names, n);
        if before.error is None {
            let name = names[n - 1];
            let grown = with_waiting(list, names, n - 1);
            lemma_position(grown, name, grown.len() as int);
            lemma_position(list, name, list.len() as int);
            if is_listed(grown, name) {
                let i = position(grown, name, grown.len() as int)->0;
                if i < list.len() {
                    assert(grown[i] == list[i]);
                    assert(is_listed(list, name));
                } else {
                    assert(grown[i].name == names[i - list.len()]);
                    assert(names[i - list.len()] == names[n - 1]);
                }
                assert(!is_new(list, names, n - 1));
                assert(!all_new(list, names, n));
                assert(all_new(list, names, n - 1) && !is_new(list, names, n - 1) && after.list
                    == with_waiting(list, names, n - 1));
            } else {
                assert(!is_listed(list, name)) by {
                    if is_listed(list, name) {
                        let i = position(list, name, list.len() as int)->0;
                        assert(grown[i] == list[i]);
                        assert(grown[i].name != name);
                    }
                }
                assert forall|j: int| 0 <= j < n - 1 implies #[trigger] names[j] != names[n - 1] by {
                    assert(grown[list.len() + j].name == names[j]);
                }
                assert(is_new(list, names, n - 1));
                assert(after.list =~= with_waiting(list, names, n));
                assert forall|k: int| 0 <= k < n implies #[trigger] is_new(list, names, k) by {
                    if k < n - 1 {
                        assert(is_new(list, names, k));
                    }
                }
            }
        } else {
            let k = choose|k: int|
                0 <= k < n - 1 && before.error->0 == (ConfigError::RegisteredTwice {
                    notice: k as usize,
                }) && all_new(list, names, k) && !#[trigger] is_new(list, names, k)
                    && before.list == with_waiting(list, names, k);
            assert(0 <= k < n && !is_new(list, names, k));
            assert(!all_new(list, names, n));
        }
    }
}

/// A run of reports never adds, removes or renames a loader, and never takes a report back.
pub proof fn lemma_reports_keep_names(list: Seq<Loader>, names: Seq<Seq<char>>, n: int)
    requires
        0 <= n <= names.len(),
    ensures
        after_reports(list, names, n).list.len() == list.len(),
        forall|i: int|
            0 <= i < list.len() ==> (#[trigger] after_reports(list, names, n).list[i]).name
                == list[i].name,
        forall|i: int|
            0 <= i < list.len() && list[i].state == LoadingReader::Recived ==> (
            #[trigger] after_reports(list, names, n).list[i]).state == LoadingReader::Recived,
    decreases n,
{
    if n > 0 {
        lemma_reports_keep_names(list, names, n - 1);
        let before = after_reports(list, names, n - 1);
        lemma_position(before.list, names[n - 1], before.list.len() as int);
    }
}

/// Whether the `k`-th report is in order: its loader is on the list, was waiting at the
/// start, and has not reported earlier in the run.
pub open spec fn is_in_order(list: Seq<Loader>, names: Seq<Seq<char>>, k: int) -> bool {
    &&& position(list, names[k], list.len() as int) is Some
    &&& list[position(list, names[k], list.len() as int)->0].state == LoadingReader::Waiting
    &&& forall|j: int| 0 <= j < k ==> #[trigger] names[j] != names[k]
}

/// Whether each of the first `n` reports is in order.
pub open spec fn all_in_order(list: Seq<Loader>, names: Seq<Seq<char>>, n: int) -> bool {
    forall|k: int| 0 <= k < n ==> #[trigger] is_in_order(list, names, k)
}

/// Whether one of the first `n` reports is that of the loader in place `i`.
pub open spec fn has_reported(list: Seq<Loader>, names: Seq<Seq<char>>, n: int, i: int) -> bool {
    exists|k: int| 0 <= k < n && #[trigger] position(list, names[k], list.len() as int) == Some(i)
}

/// The state of the loader in place `i` after the first `n` reports, where all are in
/// order: it has reported where it had before or where one of the reports is its own, and
/// is waiting else.
pub open spec fn state_after(list: Seq<Loader>, names: Seq<Seq<char>>, n: int, i: int) -> LoadingReader {
    if list[i].state == LoadingReader::Recived || has_reported(list, names, n, i) {
        LoadingReader::Recived
    } else {
        LoadingReader::Waiting
    }
}

/// A run of reports goes through exactly where every report is in order, and then leaves
/// each loader in the state that [`state_after`] gives. A run that is stopped is stopped by
/// the first report that is not in order.
pub proof fn lemma_reports(list: Seq<Loader>, names: Seq<Seq<char>>, n: int)
    requires
        0 <= n <= names.len(),
    ensures
        after_reports(list, names, n).error is None <==> all_in_order(list, names, n),
        after_reports(list, names, n).error is None ==> forall|i: int|
            0 <= i < list.len() ==> (#[trigger] after_reports(list, names, n).list[i]).state
                == state_after(list, names, n, i),
        after_reports(list, names, n).error is Some ==> exists|k: int|
            0 <= k < n && all_in_order(list, names, k) && !#[trigger] is_in_order(list, names, k)
                && after_reports(list, names, n) == after_reports(list, names, k + 1),
    decreases n,
{
    let len = list.len() as int;
    if n > 0 {
        lemma_reports(list, names, n - 1);
        lemma_reports_keep_names(list, names, n - 1);
        let before = after_reports(list, names, n - 1);
        let after = after_reports(list, names, n);
        let name = names[n - 1];
        if before.error is None {
            lemma_position_by_names(before.list, list, name, len);
            lemma_position(list, name, len);
            match position(list, name, len) {
                None => {
                    assert(!is_in_order(list, names, n - 1));
                    assert(!all_in_order(list, names, n));
                    assert(all_in_order(list, names, n - 1) && !is_in_order(list, names, n - 1)
                        && after == after_reports(list, names, n - 1 + 1));
                },
                Some(i) => {
                    assert(before.list[i].state == state_after(list, names, n - 1, i));
                    // An earlier report of the same loader is an earlier report of the same name.
                    assert(has_reported(list, names, n - 1, i) <==> exists|j: int|
                        0 <= j < n - 1 && #[trigger] names[j] == name) by {
                        if has_reported(list, names, n - 1, i) {
                            let k = choose|k: int|
                                0 <= k < n - 1 && #[trigger] position(list, names[k], len) == Some(i);
                            lemma_position(list, names[k], len);
                            assert(names[k] == name);
                        }
                        if exists|j: int| 0 <= j < n - 1 && #[trigger] names[j] == name {
                            let j = choose|j: int| 0 <= j < n - 1 && #[trigger] names[j] == name;
                            assert(position(list, names[j], len) == Some(i));
                        }
                    }
                    if before.list[i].state == LoadingReader::Recived {
                        assert(!is_in_order(list, names, n - 1));
                        assert(!all_in_order(list, names, n));
                        assert(all_in_order(list, names, n - 1) && !is_in_order(
                            list,
                            names,
                            n - 1,
                        ) && after == after_reports(list, names, n - 1 + 1));
                    } else {
                        assert(is_in_order(list, names, n - 1));
                        assert forall|k: int| 0 <= k < n implies #[trigger] is_in_order(
                            list,
                            names,
                            k,
                        ) by {
                            if k < n - 1 {
                                assert(is_in_order(list, names, k));
                            }
                        }
                        assert forall|p: int| 0 <= p < len implies (#[trigger] after.list[p]).state
                            == state_after(list, names, n, p) by {
                            assert(before.list[p].state == state_after(list, names, n - 1, p));
                            if p == i {
                                assert(position(list, names[n - 1], len) == Some(p));
                                assert(has_reported(list, names, n, p));
                            } else {
                                if has_reported(list, names, n, p) {
                                    let k = choose|k: int|
                                        0 <= k < n && #[trigger] position(list, names[k], len)
                                            == Some(p);
                                    assert(k < n - 1);
                                    assert(has_reported(list, names, n - 1, p));
                                }
                                if has_reported(list, names, n - 1, p) {
                                    let k = choose|k: int|
                                        0 <= k < n - 1 && #[trigger] position(
                                            list,
                                            names[k],
                                            len,
                                        ) == Some(p);
                                    assert(0 <= k < n && position(list, names[k], len) == Some(p));
                                }
                            }
                        }
                    }
                },
            }
        } else {
            let k = choose|k: int|
                0 <= k < n - 1 && all_in_order(list, names, k) && !#[trigger] is_in_order(
                    list,
                    names,
                    k,
                ) && before == after_reports(list, names, k + 1);
            assert(0 <= k < n && !is_in_order(list, names, k));
            assert(!all_in_order(list, names, n));
        }
    }
}

impl SelectedConfigPath {
    /// The path of a folder of configurations under the usual place.
    pub fn new_std(folder: String) -> (path: Self)
        ensures
            path.0@ == "assets/config/"@ + folder@,
    {
        Self(String::from_str("assets/config/").concat(folder.as_str()))
    }
}

impl RegisterConfigReaderEvent {
    pub fn new(name: &str) -> (event: Self)
        ensures
            event.0@ == name@,
    {
        Self(String::from_str(name))
    }
}

impl ConfigReaderFinishedEvent {
    pub fn new(name: &str) -> (event: Self)
        ensures
            event.0@ == name@,
    {
        Self(String::from_str(name))
    }
}

impl View for AllConfigReaders {
    type V = Seq<Loader>;

    open spec fn view(&self) -> Seq<Loader> {
        Seq::new(
            self.readers@.len(),
            |i: int| Loader { name: self.readers@[i].name@, state: self.readers@[i].state },
        )
    }
}

impl AllConfigReaders {
    /// No loader yet.
    pub fn new() -> (all: Self)
        ensures
            all@.len() == 0,
    {
        AllConfigReaders { readers: Vec::new() }
    }

    /// Finds the first loader of the given name.
    pub fn find(&self, name: &String) -> (place: Option<usize>)
        ensures
            place matches Some(p) ==> p < self.readers.len() && position(
                self@,
                name@,
                self@.len() as int,
            ) == Some(p as int),
            place is None ==> position(self@, name@, self@.len() as int) is None,
    {
        let mut i: usize = 0;
        while i < self.readers.len()
            invariant
                i <= self.readers.len(),
                self@.len() == self.readers.len(),
                position(self@, name@, i as int) is None,
            decreases self.readers.len() - i,
        {
            if self.readers[i].name == *name {
                proof {
                    assert(self@[i as int].name == name@);
                    lemma_position_stays(self@, name@, i + 1, self@.len() as int);
                }
                return Some(i);
            }
            proof {
                assert(self@[i as int].name != name@);
            }
            i = i + 1;
        }
        None
    }

    /// Registers a loader as waiting. A name that is registered already is refused, and
    /// nothing changes.
    pub fn register(&mut self, name: &String) -> (fresh: bool)
        ensures
            fresh == !is_listed(old(self)@, name@),
            final(self)@ == registered(old(self)@, name@),
    {
        match self.find(name) {
            Some(_) => false,
            None => {
                self.readers.push(ConfigReader { name: name.clone(), state: LoadingReader::Waiting });
                proof {
                    assert(self@ =~= old(self)@.push(
                        Loader { name: name@, state: LoadingReader::Waiting },
                    ));
                }
                true
            },
        }
    }

    /// Whether every loader has reported back.
    pub fn all_done(&self) -> (done: bool)
        ensures
            done == all_recived(self@),
    {
        let mut i: usize = 0;
        while i < self.readers.len()
            invariant
                i <= self.readers.len(),
                self@.len() == self.readers.len(),
                forall|j: int| 0 <= j < i ==> (#[trigger] self@[j]).state == LoadingReader::Recived,
            decreases self.readers.len() - i,
        {
            match self.readers[i].state {
                LoadingReader::Waiting => {
                    proof {
                        assert(self@[i as int].state == LoadingReader::Waiting);
                    }
                    return false;
                },
                LoadingReader::Recived => {
                    proof {
                        assert(self@[i as int].state == LoadingReader::Recived);
                    }
                },
            }
            i = i + 1;
        }
        true
    }
}

/// Takes in the registrations of loaders, one after the other: see [`after_registrations`].
/// All are registered as waiting, and the result is `Ok`, exactly where every name is new:
/// not registered before and not repeated among the notices. Else the first name that is not
/// new stops the work and is reported with its place; those before it stay registered.
pub fn register_readers(all: &mut AllConfigReaders, events: &Vec<RegisterConfigReaderEvent>) -> (result:
    Result<(), ConfigError>)
    ensures
        final(all)@ == after_registrations(
            old(all)@,
            names_registered(events@),
            events.len() as int,
        ).list,
        result == (match after_registrations(
            old(all)@,
            names_registered(events@),
            events.len() as int,
        ).error {
            Some(error) => Err::<(), ConfigError>(error),
            None => Ok::<(), ConfigError>(()),
        }),
        result is Ok <==> all_new(old(all)@, names_registered(events@), events.len() as int),
        result is Ok ==> final(all)@ == with_waiting(
            old(all)@,
            names_registered(events@),
            events.len() as int,
        ),
{
    let ghost names = names_registered(events@);
    let mut k: usize = 0;
    while k < events.len()
        invariant
            k <= events.len(),
            names == names_registered(events@),
            after_registrations(old(all)@, names, k as int) == (Progress {
                list: all@,
                error: None,
            }),
        decreases events.len() - k,
    {
        if !all.register(&events[k].0) {
            proof {
                assert(names[k as int] == events[k as int].0@);
                lemma_registrations_stop(old(all)@, names, k + 1, events.len() as int);
                lemma_registrations(old(all)@, names, events.len() as int);
            }
            return Err(ConfigError::RegisteredTwice { notice: k });
        }
        proof {
            assert(names[k as int] == events[k as int].0@);
        }
        k = k + 1;
    }
    proof {
        lemma_registrations(old(all)@, names, events.len() as int);
    }
    Ok(())
}

/// Takes in the reports of loaders that are done, one after the other: see
/// [`after_reports`]. Each report marks its loader as having reported and leaves the others
/// as they are. A report from a loader that never registered, or a second report from one,
/// stops the work and is reported with its place; the reports before it stay taken. Where
/// none does, the result says where the simulation stands: it runs when every loader has
/// reported, and goes on loading while any is waiting.
pub fn recive_config_loaded_events(
    all: &mut AllConfigReaders,
    events: &Vec<ConfigReaderFinishedEvent>,
) -> (result: Result<SimulationState, ConfigError>)
    ensures
        final(all)@ == after_reports(old(all)@, names_finished(events@), events.len() as int).list,
        result == (match after_reports(
            old(all)@,
            names_finished(events@),
            events.len() as int,
        ).error {
            Some(error) => Err::<SimulationState, ConfigError>(error),
            None => Ok::<SimulationState, ConfigError>(state_with(final(all)@)),
        }),
        result is Ok <==> all_in_order(old(all)@, names_finished(events@), events.len() as int),
        result is Ok ==> forall|i: int|
            0 <= i < old(all)@.len() ==> (#[trigger] final(all)@[i]).state == state_after(
                old(all)@,
                names_finished(events@),
                events.len() as int,
                i,
            ),
        final(all)@.len() == old(all)@.len(),
        forall|i: int|
            0 <= i < old(all)@.len() ==> (#[trigger] final(all)@[i]).name == old(all)@[i].name,
        forall|i: int|
            0 <= i < old(all)@.len() && old(all)@[i].state == LoadingReader::Recived ==> (
            #[trigger] final(all)@[i]).state == LoadingReader::Recived,
{
    let ghost names = names_finished(events@);
    let mut k: usize = 0;
    while k < events.len()
        invariant
            k <= events.len(),
            names == names_finished(events@),
            after_reports(old(all)@, names, k as int) == (Progress { list: all@, error: None }),
        decreases events.len() - k,
    {
        proof {
            assert(names[k as int] == events[k as int].0@);
        }
        match all.find(&events[k].0) {
            None => {
                proof {
                    lemma_reports_stop(old(all)@, names, k + 1, events.len() as int);
                    lemma_reports_keep_names(old(all)@, names, events.len() as int);
                    lemma_reports(old(all)@, names, events.len() as int);
                }
                return Err(ConfigError::NeverRegistered { notice: k });
            },
            Some(place) => {
                match all.readers[place].state {
                    LoadingReader::Recived => {
                        proof {
                            assert(all@[place as int].state == LoadingReader::Recived);
                            lemma_reports_stop(old(all)@, names, k + 1, events.len() as int);
                            lemma_reports_keep_names(old(all)@, names, events.len() as int);
                            lemma_reports(old(all)@, names, events.len() as int);
                        }
                        return Err(ConfigError::FinishedTwice { notice: k });
                    },
                    LoadingReader::Waiting => {
                        let ghost before = all@;
                        proof {
                            assert(before[place as int].state == LoadingReader::Waiting);
                        }
                        all.readers[place].state = LoadingReader::Recived;
                        proof {
                            assert(all@ =~= before.update(
                                place as int,
                                Loader {
                                    name: before[place as int].name,
                                    state: LoadingReader::Recived,
                                },
                            ));
                        }
                    },
                }
            },
        }
        k = k + 1;
    }
    proof {
        lemma_reports_keep_names(old(all)@, names, events.len() as int);
        lemma_reports(old(all)@, names, events.len() as int);
    }
    if all.all_done() {
        Ok(SimulationState::Running)
    } else {
        Ok(SimulationState::LoadingConfig)
    }
}

} // verus!
