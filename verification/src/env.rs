//! A snapshot of the process environment: the variables the telemetry rules
//! read, each set to Unicode text or to text that is not valid Unicode.

use vstd::prelude::*;

verus! {

/// The value of the last pair named `name` in `pairs` (a later pair replaces
/// an earlier one), or `None`.
pub open spec fn lookup(pairs: Seq<(Seq<char>, Seq<char>)>, name: Seq<char>) -> Option<Seq<char>>
    decreases pairs.len(),
{
    if pairs.len() == 0 {
        None
    } else if pairs.last().0 == name {
        Some(pairs.last().1)
    } else {
        lookup(pairs.drop_last(), name)
    }
}

/// An environment: each variable's name with its value, `None` standing for
/// a value that is not valid Unicode. A later assignment replaces an earlier one.
pub type EnvView = Seq<(Seq<char>, Option<Seq<char>>)>;

/// The last assignment of `name` in `env`: `None` when it is unset,
/// `Some(None)` when it is set to text that is not valid Unicode.
pub open spec fn env_entry(env: EnvView, name: Seq<char>) -> Option<Option<Seq<char>>>
    decreases env.len(),
{
    if env.len() == 0 {
        None
    } else if env.last().0 == name {
        Some(env.last().1)
    } else {
        env_entry(env.drop_last(), name)
    }
}

/// Whether `name` is set, to any value.
pub open spec fn env_is_set(env: EnvView, name: Seq<char>) -> bool {
    env_entry(env, name) is Some
}

/// The Unicode value of `name`: `None` when it is unset or its value is not
/// valid Unicode (as `std::env::var(..).ok()` reads it).
pub open spec fn env_text(env: EnvView, name: Seq<char>) -> Option<Seq<char>> {
    match env_entry(env, name) {
        Some(Some(v)) => Some(v),
        _ => None,
    }
}

/// The text of an optional `String`.
pub open spec fn opt_view(o: Option<String>) -> Option<Seq<char>> {
    match o {
        Some(s) => Some(s@),
        None => None,
    }
}

/// Environment variables with their values in the order they were given; a
/// value that is not valid Unicode is held as `None`.
pub struct EnvVars {
    vars: Vec<(String, Option<String>)>,
}

impl View for EnvVars {
    type V = EnvView;

    closed spec fn view(&self) -> EnvView {
        self.vars.deep_view()
    }
}

impl EnvVars {
    /// An environment with no variables set.
    pub fn new() -> (r: EnvVars)
        ensures
            r@ == Seq::<(Seq<char>, Option<Seq<char>>)>::empty(),
    {
        let r = EnvVars { vars: Vec::new() };
        assert(r@ =~= Seq::<(Seq<char>, Option<Seq<char>>)>::empty());
        r
    }

    /// An environment holding `entries`, where `None` marks a value that is
    /// not valid Unicode.
    pub fn from_entries(entries: Vec<(String, Option<String>)>) -> (r: EnvVars)
        ensures
            r@ == entries.deep_view(),
    {
        EnvVars { vars: entries }
    }

    /// An environment holding the Unicode assignments `vars`, in order.
    pub fn from_pairs(vars: Vec<(String, String)>) -> (r: EnvVars)
        ensures
            r@.len() == vars@.len(),
            forall|i: int|
                0 <= i < vars@.len() ==> #[trigger] r@[i] == (vars@[i].0@, Some(vars@[i].1@)),
    {
        let mut r = EnvVars::new();
        let mut i: usize = 0;
        while i < vars.len()
            invariant
                i <= vars@.len(),
                r@.len() == i,
                forall|j: int|
                    0 <= j < i ==> #[trigger] r@[j] == (vars@[j].0@, Some(vars@[j].1@)),
            decreases vars.len() - i,
        {
            let name = vars[i].0.clone();
            let value = vars[i].1.clone();
            r.set(name, value);
            i = i + 1;
        }
        r
    }

    /// Sets `name` to the Unicode text `value`.
    pub fn set(&mut self, name: String, value: String)
        ensures
            final(self)@ == old(self)@.push((name@, Some(value@))),
    {
        self.vars.push((name, Some(value)));
        assert(self@ =~= old(self)@.push((name@, Some(value@))));
    }

    /// Sets `name` to a value that is not valid Unicode.
    pub fn set_non_unicode(&mut self, name: String)
        ensures
            final(self)@ == old(self)@.push((name@, None)),
    {
        self.vars.push((name, None));
        assert(self@ =~= old(self)@.push((name@, None)));
    }

    /// The last assignment of `name`: `None` when it is unset, `Some(None)`
    /// when its value is not valid Unicode.
    pub fn get_entry(&self, name: &str) -> (r: Option<Option<String>>)
        ensures
            r.deep_view() == env_entry(self@, name@),
    {
        let key = name.to_owned();
        let mut i = self.vars.len();
        assert(self@.len() == self.vars@.len());
        assert(self@.take(i as int) =~= self@);
        while i > 0
            invariant
                i <= self.vars@.len(),
                self@.len() == self.vars@.len(),
                key@ == name@,
                env_entry(self@, name@) == env_entry(self@.take(i as int), name@),
            decreases i,
        {
            let ghost prefix = self@.take(i as int);
            assert(prefix.drop_last() =~= self@.take(i - 1));
            assert(prefix.last() == self@[i - 1]);
            assert(self@[i - 1] == self.vars@[i - 1].deep_view());
            if self.vars[i - 1].0 == key {
                return Some(self.vars[i - 1].1.clone());
            }
            i = i - 1;
        }
        None
    }

    /// Whether `name` is set, to any value.
    pub fn is_set(&self, name: &str) -> (r: bool)
        ensures
            r == env_is_set(self@, name@),
    {
        self.get_entry(name).is_some()
    }

    /// The value of `name`, when it is set to Unicode text.
    pub fn get(&self, name: &str) -> (r: Option<String>)
        ensures
            opt_view(r) == env_text(self@, name@),
    {
        match self.get_entry(name) {
            Some(Some(v)) => Some(v),
            _ => None,
        }
    }
}

} // verus!
