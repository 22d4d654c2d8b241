//! The runtime catalog: the read-only list of interpreter runtimes that were
//! discovered on the host, replaced atomically when a discovery pass
//! completes, and searched by language with a first-match policy.

use vstd::prelude::*;

verus! {

use crate::text::str_eq;

/// How to launch an interpreter runtime for one language. Immutable once
/// discovered; many specs may share a language and selection is first-match.
pub struct RuntimeSpec {
    pub language: String,
    pub command: String,
    pub args: Vec<String>,
    pub env: Vec<(String, String)>,
}

/// Duplicates a list of strings, keeping the character views.
fn clone_strings(v: &Vec<String>) -> (r: Vec<String>)
    ensures
        r@ == v@,
{
    let mut r: Vec<String> = Vec::new();
    let mut i: usize = 0;
    while i < v.len()
        invariant
            i <= v.len(),
            r@.len() == i,
            forall|j: int| 0 <= j < i ==> r@[j] == v@[j],
        decreases v.len() - i,
    {
        r.push(v[i].clone());
        i += 1;
    }
    proof {
        assert(r@ =~= v@);
    }
    r
}

/// Duplicates a list of string pairs, keeping the character views.
fn clone_string_pairs(v: &Vec<(String, String)>) -> (r: Vec<(String, String)>)
    ensures
        r@ == v@,
{
    let mut r: Vec<(String, String)> = Vec::new();
    let mut i: usize = 0;
    while i < v.len()
        invariant
            i <= v.len(),
            r@.len() == i,
            forall|j: int| 0 <= j < i ==> r@[j] == v@[j],
        decreases v.len() - i,
    {
        let p = &v[i];
        r.push((p.0.clone(), p.1.clone()));
        i += 1;
    }
    proof {
        assert(r@ =~= v@);
    }
    r
}

/// Two specs that agree on every field, up to the views of the lists.
pub open spec fn same_spec(a: RuntimeSpec, b: RuntimeSpec) -> bool {
    &&& a.language == b.language
    &&& a.command == b.command
    &&& a.args@ == b.args@
    &&& a.env@ == b.env@
}

impl Clone for RuntimeSpec {
    fn clone(&self) -> (r: Self)
        ensures
            same_spec(r, *self),
    {
        RuntimeSpec {
            language: self.language.clone(),
            command: self.command.clone(),
            args: clone_strings(&self.args),
            env: clone_string_pairs(&self.env),
        }
    }
}

/// The first spec in `specs` whose language reads `lang`, scanning from the
/// front; `None` when no spec matches.
pub open spec fn first_match(specs: Seq<RuntimeSpec>, lang: Seq<char>) -> Option<RuntimeSpec>
    decreases specs.len(),
{
    if specs.len() == 0 {
        None
    } else if specs[0].language@ == lang {
        Some(specs[0])
    } else {
        first_match(specs.drop_first(), lang)
    }
}

/// A prefix free of matches does not change the first match.
proof fn lemma_first_match_skip(specs: Seq<RuntimeSpec>, lang: Seq<char>, i: int)
    requires
        0 <= i <= specs.len(),
        forall|j: int| 0 <= j < i ==> specs[j].language@ != lang,
    ensures
        first_match(specs, lang) == first_match(specs.skip(i), lang),
    decreases i,
{
    if i > 0 {
        lemma_first_match_skip(specs, lang, i - 1);
        assert(specs.skip(i - 1).len() > 0);
        assert(specs.skip(i - 1)[0] == specs[i - 1]);
        assert(specs.skip(i - 1).drop_first() =~= specs.skip(i));
    } else {
        assert(specs.skip(0) =~= specs);
    }
}

/// The list of runtime specifications discoverable on the host. Populated by
/// an external discovery collaborator once it finishes; read-only between
/// replacements.
pub struct RuntimeCatalog {
    specs: Vec<RuntimeSpec>,
}

impl View for RuntimeCatalog {
    type V = Seq<RuntimeSpec>;

    closed spec fn view(&self) -> Seq<RuntimeSpec> {
        self.specs@
    }
}

impl RuntimeCatalog {
    /// An empty catalog: nothing has been discovered yet.
    pub fn new() -> (r: RuntimeCatalog)
        ensures
            r@ =~= Seq::<RuntimeSpec>::empty(),
    {
        RuntimeCatalog { specs: Vec::new() }
    }

    /// Atomically replaces the whole list of specs.
    pub fn set(&mut self, specs: Vec<RuntimeSpec>)
        ensures
            final(self)@ == specs@,
    {
        self.specs = specs;
    }

    /// Returns the first spec whose language matches, or nothing. An absent
    /// match is not an error at this layer.
    pub fn find(&self, language: &str) -> (r: Option<&RuntimeSpec>)
        ensures
            match r {
                Some(s) => first_match(self@, language@) == Some(*s),
                None => first_match(self@, language@) is None,
            },
    {
        let mut i: usize = 0;
        while i < self.specs.len()
            invariant
                i <= self.specs.len(),
                forall|j: int| 0 <= j < i ==> self.specs@[j].language@ != language@,
            decreases self.specs.len() - i,
        {
            if str_eq(self.specs[i].language.as_str(), language) {
                proof {
                    lemma_first_match_skip(self.specs@, language@, i as int);
                    assert(self.specs@.skip(i as int)[0] == self.specs@[i as int]);
                }
                return Some(&self.specs[i]);
            }
            i += 1;
        }
        proof {
            lemma_first_match_skip(self.specs@, language@, self.specs@.len() as int);
            assert(self.specs@.skip(self.specs@.len() as int).len() == 0);
        }
        None
    }
}

} // verus!
