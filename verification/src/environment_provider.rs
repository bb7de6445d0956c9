//! Access to the process environment: environment variables and the
//! configuration file.

use vstd::prelude::*;
use crate::config::file_reader::{read_view, ConfigFileError, ReadView};
use crate::keyed::{assoc_map, lemma_assoc_absent, lemma_assoc_found};
use crate::text::{chars_of, eq_range};

verus! {

/// Source of environment variables and of the configuration file's lines.
///
/// The spec functions describe what the implementation reports; each method
/// returns exactly that.
pub trait EnvironmentProvider {
    /// Value of the named variable, if it is set.
    spec fn env_var(&self, name: Seq<char>) -> Option<Seq<char>>;

    /// Outcome of reading the configuration file at `path`.
    spec fn config_file(&self, path: Seq<char>) -> ReadView;

    /// Returns the value of the named environment variable, if set.
    fn get_env_var(&self, name: &str) -> (r: Option<String>)
        ensures
            r matches Some(s) ==> self.env_var(name@) == Some(s@),
            r is None ==> self.env_var(name@) is None,
    ;

    /// Reads the configuration file at `path` as lines.
    fn read_config_file(&self, path: &str) -> (r: Result<Vec<String>, ConfigFileError>)
        ensures
            read_view(r) == self.config_file(path@),
    ;
}

/// Provider holding preset variables and, optionally, the outcome of
/// reading the configuration file at one path.
pub struct PresetEnvironmentProvider {
    /// Variables in the order they were set; a later entry for a name
    /// overrides an earlier one.
    vars: Vec<(String, String)>,
    /// Path of the configuration file and the outcome of reading it.
    config: Option<(String, Result<Vec<String>, ConfigFileError>)>,
}

/// A copy of a read outcome.
fn copy_read_result(r: &Result<Vec<String>, ConfigFileError>) -> (c: Result<Vec<String>, ConfigFileError>)
    ensures
        read_view(c) == read_view(*r),
{
    match r {
        Ok(lines) => {
            let mut out: Vec<String> = Vec::new();
            let mut i: usize = 0;
            while i < lines.len()
                invariant
                    i <= lines.len(),
                    out@.map_values(|l: String| l@) == lines@.take(i as int).map_values(|l: String| l@),
                decreases lines.len() - i,
            {
                let ghost before = out@;
                let line = lines[i].clone();
                assert(line@ == lines@[i as int]@);
                out.push(line);
                assert(lines@.take(i + 1) =~= lines@.take(i as int).push(lines@[i as int]));
                assert(out@.map_values(|l: String| l@) =~= before.map_values(|l: String| l@).push(line@));
                i = i + 1;
                assert(out@.map_values(|l: String| l@) =~= lines@.take(i as int).map_values(|l: String| l@));
            }
            assert(lines@.take(lines.len() as int) =~= lines@);
            Ok(out)
        },
        Err(ConfigFileError::NotFound) => Err(ConfigFileError::NotFound),
        Err(ConfigFileError::IoError(m)) => Err(ConfigFileError::IoError(m.clone())),
        Err(ConfigFileError::EncodingError(m)) => Err(ConfigFileError::EncodingError(m.clone())),
    }
}

impl PresetEnvironmentProvider {
    /// The settings as (name, value) pairs of character sequences.
    pub closed spec fn entries_view(&self) -> Seq<(Seq<char>, Seq<char>)> {
        self.vars@.map_values(|e: (String, String)| (e.0@, e.1@))
    }

    /// Preset variables by name.
    pub open spec fn vars_view(&self) -> Map<Seq<char>, Seq<char>> {
        assoc_map(self.entries_view())
    }

    /// The configuration file's path and read outcome, if one was given.
    pub closed spec fn config_view(&self) -> Option<(Seq<char>, ReadView)> {
        match self.config {
            Some(c) => Some((c.0@, read_view(c.1))),
            None => None,
        }
    }

    /// A provider with no variables and no configuration file.
    pub fn new() -> (r: Self)
        ensures
            r.vars_view() == Map::<Seq<char>, Seq<char>>::empty(),
            r.config_view() is None,
    {
        let r = PresetEnvironmentProvider { vars: Vec::new(), config: None };
        assert(r.vars_view() =~= Map::<Seq<char>, Seq<char>>::empty());
        r
    }

    /// Sets a variable.
    pub fn set(&mut self, name: &str, value: &str)
        ensures
            final(self).vars_view() == old(self).vars_view().insert(name@, value@),
            final(self).config_view() == old(self).config_view(),
    {
        let ghost before = self.entries_view();
        self.vars.push((crate::text::string_from(name), crate::text::string_from(value)));
        assert(self.entries_view() =~= before.push((name@, value@)));
        assert(self.entries_view().drop_last() =~= before);
        assert(self.vars_view() =~= old(self).vars_view().insert(name@, value@));
    }

    /// Records the outcome of reading the configuration file at `path`.
    pub fn set_config_file(&mut self, path: String, result: Result<Vec<String>, ConfigFileError>)
        ensures
            final(self).vars_view() == old(self).vars_view(),
            final(self).config_view() == Some((path@, read_view(result))),
    {
        self.config = Some((path, result));
    }

    /// Value of the last setting of `name`.
    fn lookup(&self, name: &str) -> (r: Option<String>)
        ensures
            r matches Some(v) ==> self.vars_view().contains_key(name@) && v@ == self.vars_view()[name@],
            r is None ==> !self.vars_view().contains_key(name@),
    {
        let key = chars_of(name);
        let mut i = self.vars.len();
        while i > 0
            invariant
                i <= self.vars.len(),
                key@ == name@,
                forall|j: int| i <= j < self.entries_view().len() ==> self.entries_view()[j].0 != name@,
            decreases i,
        {
            let kv = chars_of(self.vars[i - 1].0.as_str());
            assert(kv@.subrange(0, kv@.len() as int) =~= kv@);
            if eq_range(&kv, 0, kv.len(), &key) {
                proof {
                    lemma_assoc_found(self.entries_view(), i - 1, name@);
                }
                return Some(self.vars[i - 1].1.clone());
            }
            i = i - 1;
        }
        proof {
            lemma_assoc_absent(self.entries_view(), name@);
        }
        None
    }
}

impl EnvironmentProvider for PresetEnvironmentProvider {
    open spec fn env_var(&self, name: Seq<char>) -> Option<Seq<char>> {
        if self.vars_view().contains_key(name) {
            Some(self.vars_view()[name])
        } else {
            None
        }
    }

    open spec fn config_file(&self, path: Seq<char>) -> ReadView {
        match self.config_view() {
            Some(c) => if c.0 == path {
                c.1
            } else {
                ReadView::NotFound
            },
            None => ReadView::NotFound,
        }
    }

    fn get_env_var(&self, name: &str) -> (r: Option<String>) {
        self.lookup(name)
    }

    fn read_config_file(&self, path: &str) -> (r: Result<Vec<String>, ConfigFileError>) {
        match &self.config {
            Some(c) => {
                let pv = chars_of(path);
                let cv = chars_of(c.0.as_str());
                assert(pv@.subrange(0, pv@.len() as int) =~= pv@);
                if crate::text::eq_range(&pv, 0, pv.len(), &cv) {
                    copy_read_result(&c.1)
                } else {
                    Err(ConfigFileError::NotFound)
                }
            },
            None => Err(ConfigFileError::NotFound),
        }
    }
}

/// Provider holding preset variables and no configuration file, for tests.
pub struct MockEnvironmentProvider {
    inner: PresetEnvironmentProvider,
}

impl MockEnvironmentProvider {
    /// Preset variables by name.
    pub closed spec fn vars_view(&self) -> Map<Seq<char>, Seq<char>> {
        self.inner.vars_view()
    }

    /// A provider with no variables set.
    pub fn new() -> (r: Self)
        ensures
            r.vars_view() == Map::<Seq<char>, Seq<char>>::empty(),
    {
        MockEnvironmentProvider { inner: PresetEnvironmentProvider::new() }
    }

    /// Sets a variable.
    pub fn set(&mut self, name: &str, value: &str)
        ensures
            final(self).vars_view() == old(self).vars_view().insert(name@, value@),
    {
        self.inner.set(name, value);
    }
}

impl Default for MockEnvironmentProvider {
    fn default() -> (r: Self)
        ensures
            r.vars_view() == Map::<Seq<char>, Seq<char>>::empty(),
    {
        MockEnvironmentProvider::new()
    }
}

impl EnvironmentProvider for MockEnvironmentProvider {
    open spec fn env_var(&self, name: Seq<char>) -> Option<Seq<char>> {
        if self.vars_view().contains_key(name) {
            Some(self.vars_view()[name])
        } else {
            None
        }
    }

    open spec fn config_file(&self, path: Seq<char>) -> ReadView {
        ReadView::NotFound
    }

    fn get_env_var(&self, name: &str) -> (r: Option<String>) {
        self.inner.get_env_var(name)
    }

    fn read_config_file(&self, path: &str) -> (r: Result<Vec<String>, ConfigFileError>) {
        Err(ConfigFileError::NotFound)
    }
}

} // verus!
