//! The project store: projects, their plugin sets and properties, and
//! the global properties, together with the store's invariants.

use vstd::prelude::*;

pub mod document;
use crate::props::{
    PropsV, spec_lookup, spec_set, spec_del, unique_keys, list_set, list_del,
    lemma_set_unique, lemma_del_lookup,
};
use crate::strutil::str_is;

verus! {

/// The mathematical content of one project.
pub struct ProjectView {
    pub name: Seq<char>,
    pub plugins: Seq<Seq<char>>,
    pub props: PropsV,
}

impl ProjectView {
    /// Plugin names are pairwise distinct and property keys are unique.
    pub open spec fn wf(self) -> bool {
        &&& unique_keys(self.props)
        &&& forall|i: int, j: int|
            0 <= i < j < self.plugins.len() ==> self.plugins[i] != self.plugins[j]
    }

    /// This project with another property list.
    pub open spec fn with_props(self, props: PropsV) -> ProjectView {
        ProjectView { name: self.name, plugins: self.plugins, props }
    }

    /// This project with another plugin list.
    pub open spec fn with_plugins(self, plugins: Seq<Seq<char>>) -> ProjectView {
        ProjectView { name: self.name, plugins, props: self.props }
    }
}

/// A named development workspace: a unique name, the set of plugin
/// names enabled on it (held in enable order), and its properties.
pub struct Project {
    pub name: String,
    pub plugins: Vec<String>,
    pub properties: Vec<(String, String)>,
}

impl View for Project {
    type V = ProjectView;

    open spec fn view(&self) -> ProjectView {
        ProjectView {
            name: self.name@,
            plugins: self.plugins.deep_view(),
            props: self.properties.deep_view(),
        }
    }
}

impl DeepView for Project {
    type V = ProjectView;

    open spec fn deep_view(&self) -> ProjectView {
        self.view()
    }
}

impl Project {
    /// A fresh project with no plugins and no properties.
    pub fn new(name: String) -> (r: Project)
        ensures
            r@.name == name@,
            r@.plugins.len() == 0,
            r@.props.len() == 0,
            r@.wf(),
    {
        let r = Project { name, plugins: Vec::new(), properties: Vec::new() };
        proof {
            assert(r@.plugins =~= Seq::<Seq<char>>::empty());
            assert(r@.props =~= Seq::<(Seq<char>, Seq<char>)>::empty());
        }
        r
    }

    /// Whether the plugin named `p` is enabled on this project.
    pub fn has_plugin(&self, p: &str) -> (r: bool)
        ensures
            r == self@.plugins.contains(p@),
    {
        let ghost plugins = self@.plugins;
        let n = self.plugins.len();
        let mut i: usize = 0;
        while i < n
            invariant
                n == self.plugins.len(),
                plugins == self@.plugins,
                i <= n,
                forall|j: int| 0 <= j < i ==> plugins[j] != p@,
            decreases n - i,
        {
            if str_is(self.plugins[i].as_str(), p) {
                proof {
                    assert(plugins.contains(p@)) by {
                        assert(plugins[i as int] == p@);
                    }
                }
                return true;
            }
            i = i + 1;
        }
        false
    }
}

/// The mathematical content of the store.
pub struct ConfigView {
    pub projects: Seq<ProjectView>,
    pub globals: PropsV,
}

impl ConfigView {
    /// The project names, in listing order.
    pub open spec fn names(self) -> Seq<Seq<char>> {
        self.projects.map_values(|p: ProjectView| p.name)
    }

    /// Index of the project named `name`, if any.
    pub open spec fn find(self, name: Seq<char>) -> Option<int> {
        self.names().index_of_first(name)
    }

    /// Whether a project named `name` is in the store.
    pub open spec fn has_project(self, name: Seq<char>) -> bool {
        self.names().contains(name)
    }

    /// Project names are unique, every project is well formed, and the
    /// global property keys are unique.
    pub open spec fn wf(self) -> bool {
        &&& forall|i: int, j: int|
            0 <= i < j < self.projects.len() ==> self.projects[i].name != self.projects[j].name
        &&& forall|i: int| 0 <= i < self.projects.len() ==> (#[trigger] self.projects[i]).wf()
        &&& unique_keys(self.globals)
    }

    /// This store with another project list.
    pub open spec fn with_projects(self, projects: Seq<ProjectView>) -> ConfigView {
        ConfigView { projects, globals: self.globals }
    }

    /// This store with another global property list.
    pub open spec fn with_globals(self, globals: PropsV) -> ConfigView {
        ConfigView { projects: self.projects, globals }
    }
}

/// The store bound to the path it is persisted at.
pub struct SavedConfig {
    pub path: String,
    pub data: Config,
}

impl SavedConfig {
    /// Binds a store read from the document text to `path`.  No text
    /// means the file does not exist yet: the store starts empty.  Text
    /// that is not a well-formed document yields None, and startup must
    /// then fail loudly rather than run on a half-read store.
    pub fn new(path: String, document: Option<&str>) -> (r: Option<SavedConfig>)
        ensures
            match document {
                None => match r {
                    Some(sc) => sc.path@ == path@ && sc.data@.projects.len() == 0
                        && sc.data@.globals.len() == 0 && sc.data@.wf(),
                    None => false,
                },
                Some(text) => match crate::config::document::p_config(text@) {
                    Some(cv) => match r {
                        Some(sc) => sc.path@ == path@ && sc.data@ == cv,
                        None => false,
                    },
                    None => r is None,
                },
            },
    {
        match document {
            None => Some(SavedConfig { path, data: Config::default() }),
            Some(text) => match crate::config::document::parse_config(text) {
                Some(data) => Some(SavedConfig { path, data }),
                None => None,
            },
        }
    }

    /// The document text to be written at `self.path`.  Every mutating
    /// request persists the store by writing this text out before its
    /// reply counts as success.
    pub fn save(&self) -> (r: String)
        ensures
            r@ == crate::config::document::enc_config(self.data@),
    {
        crate::config::document::encode_config(&self.data)
    }
}

/// The store: every project plus the global properties.  Exactly one
/// lives in a daemon process; it is the single source of truth.
pub struct Config {
    pub projects: Vec<Project>,
    pub properties: Vec<(String, String)>,
}

impl View for Config {
    type V = ConfigView;

    open spec fn view(&self) -> ConfigView {
        ConfigView { projects: self.projects.deep_view(), globals: self.properties.deep_view() }
    }
}

impl Default for Config {
    /// An empty store.
    fn default() -> (r: Config)
        ensures
            r@.projects.len() == 0,
            r@.globals.len() == 0,
            r@.wf(),
    {
        let r = Config { projects: Vec::new(), properties: Vec::new() };
        proof {
            assert(r@.projects =~= Seq::<ProjectView>::empty());
            assert(r@.globals =~= Seq::<(Seq<char>, Seq<char>)>::empty());
        }
        r
    }
}

impl Config {
    /// Finds the index of the project named `name`.
    pub fn find_project(&self, name: &str) -> (r: Option<usize>)
        ensures
            match r {
                Some(i) => self@.find(name@) == Some(i as int) && i < self@.projects.len()
                    && self@.projects[i as int].name == name@,
                None => self@.find(name@) is None && !self@.has_project(name@),
            },
    {
        let ghost cv = self@;
        let n = self.projects.len();
        let mut i: usize = 0;
        assert(cv.names().len() == n);
        while i < n
            invariant
                n == self.projects.len(),
                cv == self@,
                cv.names().len() == n,
                i <= n,
                forall|j: int| 0 <= j < i ==> cv.names()[j] != name@,
            decreases n - i,
        {
            assert(cv.names()[i as int] == cv.projects[i as int].name);
            if str_is(self.projects[i].name.as_str(), name) {
                proof {
                    cv.names().index_of_first_ensures(name@);
                    let fi = cv.find(name@);
                    if fi is Some {
                        let j = fi->Some_0;
                        assert(cv.names()[j] == name@);
                        assert(j == i as int);
                    } else {
                        assert(cv.names().contains(name@)) by {
                            assert(cv.names()[i as int] == name@);
                        }
                    }
                }
                return Some(i);
            }
            i = i + 1;
        }
        proof {
            cv.names().index_of_first_ensures(name@);
            if cv.find(name@) is Some {
                let j = cv.find(name@)->Some_0;
                assert(cv.names()[j] == name@);
            }
            if cv.names().contains(name@) {
                let j = choose|j: int| 0 <= j < cv.names().len() && cv.names()[j] == name@;
                assert(cv.names()[j] == name@);
            }
        }
        None
    }

    /// Adds a fresh project named `name`; reports whether it was added,
    /// false when the name is already taken (the store is unchanged).
    pub fn add_project(&mut self, name: &str) -> (r: bool)
        ensures
            r == !old(self)@.has_project(name@),
            r ==> final(self)@ == old(self)@.with_projects(
                old(self)@.projects.push(
                    ProjectView { name: name@, plugins: Seq::empty(), props: Seq::empty() },
                ),
            ),
            !r ==> *final(self) == *old(self),
            old(self)@.wf() ==> final(self)@.wf(),
    {
        let ghost cv = self@;
        match self.find_project(name) {
            Some(i) => {
                proof {
                    assert(cv.has_project(name@)) by {
                        assert(cv.names()[i as int] == cv.projects[i as int].name);
                    }
                }
                false
            },
            None => {
                let p = Project::new(name.to_owned());
                proof {
                    cv.names().index_of_first_ensures(name@);
                }
                self.projects.push(p);
                proof {
                    assert(self@.projects =~= cv.projects.push(p@));
                    assert(p@.plugins =~= Seq::<Seq<char>>::empty());
                    assert(p@.props =~= Seq::<(Seq<char>, Seq<char>)>::empty());
                    assert(self@ == cv.with_projects(
                        cv.projects.push(
                            ProjectView { name: name@, plugins: Seq::empty(), props: Seq::empty() },
                        ),
                    ));
                    if cv.wf() {
                        assert forall|i: int, j: int|
                            0 <= i < j < self@.projects.len() implies self@.projects[i].name
                            != self@.projects[j].name by {
                            if j == cv.projects.len() as int {
                                assert(cv.names()[i] == cv.projects[i].name);
                            }
                        }
                    }
                }
                true
            },
        }
    }

    /// Removes the project named `name`; reports whether one was there.
    pub fn del_project(&mut self, name: &str) -> (r: bool)
        ensures
            r == old(self)@.has_project(name@),
            r ==> final(self)@ == old(self)@.with_projects(
                old(self)@.projects.remove(old(self)@.find(name@)->Some_0),
            ),
            !r ==> *final(self) == *old(self),
            old(self)@.wf() ==> final(self)@.wf(),
    {
        let ghost cv = self@;
        proof {
            cv.names().index_of_first_ensures(name@);
        }
        match self.find_project(name) {
            Some(i) => {
                self.projects.remove(i);
                proof {
                    assert(self@.projects =~= cv.projects.remove(i as int));
                    if cv.wf() {
                        assert forall|a: int, b: int|
                            0 <= a < b < self@.projects.len() implies self@.projects[a].name
                            != self@.projects[b].name by {
                            let a0 = if a < i as int {
                                a
                            } else {
                                a + 1
                            };
                            let b0 = if b < i as int {
                                b
                            } else {
                                b + 1
                            };
                            assert(self@.projects[a] == cv.projects[a0]);
                            assert(self@.projects[b] == cv.projects[b0]);
                        }
                        assert forall|a: int| 0 <= a < self@.projects.len() implies (
                        #[trigger] self@.projects[a]).wf() by {
                            let a0 = if a < i as int {
                                a
                            } else {
                                a + 1
                            };
                            assert(self@.projects[a] == cv.projects[a0]);
                        }
                    }
                }
                true
            },
            None => false,
        }
    }

    /// Sets property `k` of the project named `name` to `v`; reports
    /// false (and leaves the store unchanged) when there is no such
    /// project.
    pub fn set_project_prop(&mut self, name: &str, k: &str, v: &str) -> (r: bool)
        ensures
            r == old(self)@.has_project(name@),
            !r ==> *final(self) == *old(self),
            r ==> ({
                let i = old(self)@.find(name@)->Some_0;
                let p0 = old(self)@.projects[i];
                final(self)@ == old(self)@.with_projects(
                    old(self)@.projects.update(i, p0.with_props(spec_set(p0.props, k@, v@))),
                )
            }),
            old(self)@.wf() ==> final(self)@.wf(),
    {
        let ghost cv = self@;
        match self.find_project(name) {
            Some(i) => {
                proof {
                    assert(cv.has_project(name@)) by {
                        assert(cv.names()[i as int] == cv.projects[i as int].name);
                    }
                }
                let pr = &mut self.projects[i];
                let ghost p0 = pr@;
                list_set(&mut pr.properties, k, v);
                proof {
                    assert(pr@ == p0.with_props(spec_set(p0.props, k@, v@)));
                    assert(self@.projects =~= cv.projects.update(
                        i as int,
                        p0.with_props(spec_set(p0.props, k@, v@)),
                    ));
                    if cv.wf() {
                        lemma_set_unique(p0.props, k@, v@);
                        assert forall|a: int, b: int|
                            0 <= a < b < self@.projects.len() implies self@.projects[a].name
                            != self@.projects[b].name by {
                            assert(self@.projects[a].name == cv.projects[a].name);
                            assert(self@.projects[b].name == cv.projects[b].name);
                        }
                    }
                }
                true
            },
            None => false,
        }
    }

    /// Removes property `k` of the project named `name`.  Yields None
    /// when there is no such project, and otherwise whether the
    /// property was there to remove.
    pub fn del_project_prop(&mut self, name: &str, k: &str) -> (r: Option<bool>)
        ensures
            (r is None) == !old(self)@.has_project(name@),
            r is None ==> *final(self) == *old(self),
            r is Some ==> ({
                let i = old(self)@.find(name@)->Some_0;
                let p0 = old(self)@.projects[i];
                &&& r == Some(spec_lookup(p0.props, k@) is Some)
                &&& final(self)@ == old(self)@.with_projects(
                    old(self)@.projects.update(i, p0.with_props(spec_del(p0.props, k@))),
                )
            }),
            old(self)@.wf() ==> final(self)@.wf(),
    {
        let ghost cv = self@;
        match self.find_project(name) {
            Some(i) => {
                proof {
                    assert(cv.has_project(name@)) by {
                        assert(cv.names()[i as int] == cv.projects[i as int].name);
                    }
                }
                let pr = &mut self.projects[i];
                let ghost p0 = pr@;
                let there = list_del(&mut pr.properties, k);
                proof {
                    assert(pr@ == p0.with_props(spec_del(p0.props, k@)));
                    assert(self@.projects =~= cv.projects.update(
                        i as int,
                        p0.with_props(spec_del(p0.props, k@)),
                    ));
                    if cv.wf() {
                        lemma_del_lookup(p0.props, k@, k@);
                        assert forall|a: int, b: int|
                            0 <= a < b < self@.projects.len() implies self@.projects[a].name
                            != self@.projects[b].name by {
                            assert(self@.projects[a].name == cv.projects[a].name);
                            assert(self@.projects[b].name == cv.projects[b].name);
                        }
                    }
                }
                Some(there)
            },
            None => None,
        }
    }

    /// Enables the plugin named `p` on the project named `name`.
    /// Yields None when there is no such project; Some(false) when the
    /// plugin was already enabled (the store is unchanged, so enabling
    /// twice is idempotent); Some(true) when it was appended.
    pub fn enable_plugin(&mut self, name: &str, p: &str) -> (r: Option<bool>)
        ensures
            (r is None) == !old(self)@.has_project(name@),
            r is None ==> *final(self) == *old(self),
            r is Some ==> ({
                let i = old(self)@.find(name@)->Some_0;
                let p0 = old(self)@.projects[i];
                if p0.plugins.contains(p@) {
                    r == Some(false) && *final(self) == *old(self)
                } else {
                    r == Some(true) && final(self)@ == old(self)@.with_projects(
                        old(self)@.projects.update(i, p0.with_plugins(p0.plugins.push(p@))),
                    )
                }
            }),
            old(self)@.wf() ==> final(self)@.wf(),
    {
        let ghost cv = self@;
        match self.find_project(name) {
            Some(i) => {
                proof {
                    assert(cv.has_project(name@)) by {
                        assert(cv.names()[i as int] == cv.projects[i as int].name);
                    }
                }
                if self.projects[i].has_plugin(p) {
                    Some(false)
                } else {
                    let pr = &mut self.projects[i];
                    let ghost p0 = pr@;
                    pr.plugins.push(p.to_owned());
                    proof {
                        assert(pr@.plugins =~= p0.plugins.push(p@));
                        assert(pr@ == p0.with_plugins(p0.plugins.push(p@)));
                        assert(self@.projects =~= cv.projects.update(
                            i as int,
                            p0.with_plugins(p0.plugins.push(p@)),
                        ));
                        if cv.wf() {
                            assert forall|a: int, b: int|
                                0 <= a < b < self@.projects.len() implies self@.projects[a].name
                                != self@.projects[b].name by {
                                assert(self@.projects[a].name == cv.projects[a].name);
                                assert(self@.projects[b].name == cv.projects[b].name);
                            }
                            assert(p0.with_plugins(p0.plugins.push(p@)).wf()) by {
                                let np = p0.plugins.push(p@);
                                assert forall|a: int, b: int|
                                    0 <= a < b < np.len() implies np[a] != np[b] by {
                                    if b == np.len() - 1 {
                                        assert(np[a] == p0.plugins[a]);
                                        if p0.plugins[a] == p@ {
                                            assert(p0.plugins.contains(p@));
                                        }
                                    }
                                }
                            }
                        }
                    }
                    Some(true)
                }
            },
            None => None,
        }
    }

    /// Disables the plugin named `p` on the project named `name`.
    /// Yields None when there is no such project; Some(false) when the
    /// plugin was not enabled (the store is unchanged); Some(true) when
    /// its first occurrence was removed.
    pub fn disable_plugin(&mut self, name: &str, p: &str) -> (r: Option<bool>)
        ensures
            (r is None) == !old(self)@.has_project(name@),
            r is None ==> *final(self) == *old(self),
            r is Some ==> ({
                let i = old(self)@.find(name@)->Some_0;
                let p0 = old(self)@.projects[i];
                if p0.plugins.contains(p@) {
                    r == Some(true) && final(self)@ == old(self)@.with_projects(
                        old(self)@.projects.update(
                            i,
                            p0.with_plugins(p0.plugins.remove(p0.plugins.index_of_first(p@)->Some_0)),
                        ),
                    )
                } else {
                    r == Some(false) && *final(self) == *old(self)
                }
            }),
            old(self)@.wf() ==> final(self)@.wf(),
    {
        let ghost cv = self@;
        match self.find_project(name) {
            Some(i) => {
                proof {
                    assert(cv.has_project(name@)) by {
                        assert(cv.names()[i as int] == cv.projects[i as int].name);
                    }
                }
                let ghost p0 = cv.projects[i as int];
                match Self::plugin_index(&self.projects[i], p) {
                    Some(j) => {
                        let pr = &mut self.projects[i];
                        pr.plugins.remove(j);
                        proof {
                            p0.plugins.index_of_first_ensures(p@);
                            assert(pr@.plugins =~= p0.plugins.remove(j as int));
                            assert(pr@ == p0.with_plugins(p0.plugins.remove(j as int)));
                            assert(self@.projects =~= cv.projects.update(
                                i as int,
                                p0.with_plugins(p0.plugins.remove(j as int)),
                            ));
                            if cv.wf() {
                                assert forall|a: int, b: int|
                                    0 <= a < b < self@.projects.len() implies self@.projects[a].name
                                    != self@.projects[b].name by {
                                    assert(self@.projects[a].name == cv.projects[a].name);
                                    assert(self@.projects[b].name == cv.projects[b].name);
                                }
                                let np = p0.plugins.remove(j as int);
                                assert(p0.with_plugins(np).wf()) by {
                                    assert forall|a: int, b: int|
                                        0 <= a < b < np.len() implies np[a] != np[b] by {
                                        let a0 = if a < j as int {
                                            a
                                        } else {
                                            a + 1
                                        };
                                        let b0 = if b < j as int {
                                            b
                                        } else {
                                            b + 1
                                        };
                                        assert(np[a] == p0.plugins[a0]);
                                        assert(np[b] == p0.plugins[b0]);
                                    }
                                }
                            }
                        }
                        Some(true)
                    },
                    None => Some(false),
                }
            },
            None => None,
        }
    }

    /// Finds the index of the first occurrence of plugin `p` on `pr`.
    fn plugin_index(pr: &Project, p: &str) -> (r: Option<usize>)
        ensures
            match r {
                Some(j) => pr@.plugins.index_of_first(p@) == Some(j as int) && j
                    < pr@.plugins.len(),
                None => !pr@.plugins.contains(p@),
            },
    {
        let ghost plugins = pr@.plugins;
        let n = pr.plugins.len();
        let mut i: usize = 0;
        while i < n
            invariant
                n == pr.plugins.len(),
                plugins == pr@.plugins,
                i <= n,
                forall|j: int| 0 <= j < i ==> plugins[j] != p@,
            decreases n - i,
        {
            if str_is(pr.plugins[i].as_str(), p) {
                proof {
                    plugins.index_of_first_ensures(p@);
                    assert(plugins.contains(p@)) by {
                        assert(plugins[i as int] == p@);
                    }
                    let j = plugins.index_of_first(p@)->Some_0;
                    assert(plugins[j] == p@);
                    if j < i as int {
                        assert(plugins[j] != p@);
                    } else if j > i as int {
                        assert(plugins[i as int] != p@);
                    }
                }
                return Some(i);
            }
            i = i + 1;
        }
        proof {
            if plugins.contains(p@) {
                let j = choose|j: int| 0 <= j < plugins.len() && plugins[j] == p@;
                assert(plugins[j] == p@);
            }
        }
        None
    }

    /// Sets the global property `k` to `v`.
    pub fn set_global(&mut self, k: &str, v: &str)
        ensures
            final(self)@ == old(self)@.with_globals(spec_set(old(self)@.globals, k@, v@)),
            old(self)@.wf() ==> final(self)@.wf(),
    {
        let ghost cv = self@;
        list_set(&mut self.properties, k, v);
        proof {
            if cv.wf() {
                lemma_set_unique(cv.globals, k@, v@);
            }
            assert(self@ == cv.with_globals(spec_set(cv.globals, k@, v@)));
        }
    }

    /// Removes the global property `k`; reports whether it was there.
    pub fn del_global(&mut self, k: &str) -> (r: bool)
        ensures
            r == (spec_lookup(old(self)@.globals, k@) is Some),
            final(self)@ == old(self)@.with_globals(spec_del(old(self)@.globals, k@)),
            old(self)@.wf() ==> final(self)@.wf(),
    {
        let ghost cv = self@;
        let r = list_del(&mut self.properties, k);
        proof {
            if cv.wf() {
                lemma_del_lookup(cv.globals, k@, k@);
            }
            assert(self@ == cv.with_globals(spec_del(cv.globals, k@)));
        }
        r
    }

    /// The project names, in listing order.
    pub fn project_names(&self) -> (r: Vec<String>)
        ensures
            r.deep_view() == self@.names(),
    {
        let ghost cv = self@;
        let n = self.projects.len();
        let mut out: Vec<String> = Vec::new();
        let mut i: usize = 0;
        while i < n
            invariant
                n == self.projects.len(),
                cv == self@,
                i <= n,
                out.deep_view() =~= cv.names().take(i as int),
            decreases n - i,
        {
            let ghost prev = out.deep_view();
            let nm = self.projects[i].name.clone();
            proof {
                assert(nm@ == cv.projects[i as int].name);
            }
            out.push(nm);
            proof {
                assert(out.deep_view() =~= prev.push(cv.projects[i as int].name));
                assert(cv.names()[i as int] == cv.projects[i as int].name);
                assert(cv.names().take(i + 1) =~= cv.names().take(i as int).push(
                    cv.names()[i as int],
                ));
            }
            i = i + 1;
        }
        proof {
            assert(cv.names().take(n as int) =~= cv.names());
        }
        out
    }
}

} // verus!
