//! The prompt slash command: inserts a prompt from the prompt library by
//! title. The library itself is an external store; this model holds what
//! the command reads of it — titles and contents — while fuzzy matching of
//! titles stays with the external matcher, whose picks come back here to be
//! resolved.

use vstd::prelude::*;

verus! {

use vstd::string::StringExecFns;
use crate::text::str_eq;

/// One prompt: an optional title and the content inserted for it.
pub struct Prompt {
    pub title: Option<String>,
    pub content: String,
}

/// The prompts the command can draw from, in library order.
pub struct PromptLibrary {
    prompts: Vec<Prompt>,
}

/// The `(index, title)` pairs of the titled prompts, in order: the
/// candidate list handed to the external matcher.
pub open spec fn title_candidates_of(ps: Seq<Prompt>) -> Seq<(int, Seq<char>)>
    decreases ps.len(),
{
    if ps.len() == 0 {
        Seq::empty()
    } else {
        let rest = title_candidates_of(ps.drop_last());
        match ps.last().title {
            Some(t) => rest.push((ps.len() - 1, t@)),
            None => rest,
        }
    }
}

/// Whether `p` carries exactly the title `title`.
pub open spec fn titled_with(p: Prompt, title: Seq<char>) -> bool {
    match p.title {
        Some(t) => t@ == title,
        None => false,
    }
}

/// The first prompt whose title reads `title`.
pub open spec fn first_titled(ps: Seq<Prompt>, title: Seq<char>) -> Option<Prompt>
    decreases ps.len(),
{
    if ps.len() == 0 {
        None
    } else if titled_with(ps[0], title) {
        Some(ps[0])
    } else {
        first_titled(ps.drop_first(), title)
    }
}

/// A prefix without the title does not change which prompt is found.
proof fn lemma_first_titled_skip(ps: Seq<Prompt>, title: Seq<char>, i: int)
    requires
        0 <= i <= ps.len(),
        forall|j: int| 0 <= j < i ==> !titled_with(ps[j], title),
    ensures
        first_titled(ps, title) == first_titled(ps.skip(i), title),
    decreases i,
{
    if i > 0 {
        lemma_first_titled_skip(ps, title, i - 1);
        assert(ps.skip(i - 1)[0] == ps[i - 1]);
        assert(ps.skip(i - 1).drop_first() =~= ps.skip(i));
    } else {
        assert(ps.skip(0) =~= ps);
    }
}

impl PromptLibrary {
    /// The prompts held, in order.
    pub closed spec fn entries(&self) -> Seq<Prompt> {
        self.prompts@
    }

    /// An empty library.
    pub fn new() -> (r: PromptLibrary)
        ensures
            r.entries() =~= Seq::<Prompt>::empty(),
    {
        PromptLibrary { prompts: Vec::new() }
    }

    /// Appends one prompt.
    pub fn add(&mut self, prompt: Prompt)
        ensures
            final(self).entries() == old(self).entries().push(prompt),
    {
        self.prompts.push(prompt);
    }

    /// The titled prompts as `(index, title)` matcher candidates.
    pub fn title_candidates(&self) -> (r: Vec<(usize, String)>)
        ensures
            r@.len() == title_candidates_of(self.entries()).len(),
            forall|k: int|
                0 <= k < r@.len() ==> r@[k].0 as int == title_candidates_of(self.entries())[k].0
                    && r@[k].1@ == title_candidates_of(self.entries())[k].1,
    {
        let mut r: Vec<(usize, String)> = Vec::new();
        let mut i: usize = 0;
        while i < self.prompts.len()
            invariant
                i <= self.prompts.len(),
                r@.len() == title_candidates_of(self.prompts@.take(i as int)).len(),
                forall|k: int|
                    0 <= k < r@.len() ==> r@[k].0 as int == title_candidates_of(
                        self.prompts@.take(i as int),
                    )[k].0 && r@[k].1@ == title_candidates_of(self.prompts@.take(i as int))[k].1,
            decreases self.prompts.len() - i,
        {
            proof {
                assert(self.prompts@.take(i as int + 1).drop_last() =~= self.prompts@.take(
                    i as int,
                ));
                assert(self.prompts@.take(i as int + 1).last() == self.prompts@[i as int]);
            }
            match &self.prompts[i].title {
                Some(t) => r.push((i, t.clone())),
                None => (),
            }
            i += 1;
        }
        proof {
            assert(self.prompts@.take(self.prompts@.len() as int) =~= self.prompts@);
        }
        r
    }

    /// The content of the first prompt titled `title`, if any is.
    pub fn content_for_title(&self, title: &str) -> (r: Option<&String>)
        ensures
            match r {
                Some(c) => first_titled(self.entries(), title@) matches Some(p) && p.content
                    == *c,
                None => first_titled(self.entries(), title@) is None,
            },
    {
        let mut i: usize = 0;
        while i < self.prompts.len()
            invariant
                i <= self.prompts.len(),
                forall|j: int| 0 <= j < i ==> !titled_with(self.prompts@[j], title@),
            decreases self.prompts.len() - i,
        {
            let hit = match &self.prompts[i].title {
                Some(t) => str_eq(t.as_str(), title),
                None => false,
            };
            if hit {
                proof {
                    lemma_first_titled_skip(self.prompts@, title@, i as int);
                    assert(self.prompts@.skip(i as int)[0] == self.prompts@[i as int]);
                }
                return Some(&self.prompts[i].content);
            }
            i += 1;
        }
        proof {
            lemma_first_titled_skip(self.prompts@, title@, self.prompts@.len() as int);
        }
        None
    }
}

/// Resolves the external matcher's picks back to candidate titles, in the
/// order the matcher ranked them.
pub fn selected_titles(candidates: &Vec<(usize, String)>, picks: &Vec<usize>) -> (r: Vec<String>)
    requires
        forall|k: int| 0 <= k < picks@.len() ==> picks@[k] < candidates@.len(),
    ensures
        r@.len() == picks@.len(),
        forall|k: int| 0 <= k < r@.len() ==> r@[k]@ == candidates@[picks@[k] as int].1@,
{
    let mut r: Vec<String> = Vec::new();
    let mut i: usize = 0;
    while i < picks.len()
        invariant
            i <= picks@.len(),
            forall|k: int| 0 <= k < picks@.len() ==> picks@[k] < candidates@.len(),
            r@.len() == i,
            forall|k: int| 0 <= k < i ==> r@[k]@ == candidates@[picks@[k] as int].1@,
        decreases picks.len() - i,
    {
        r.push(candidates[picks[i]].1.clone());
        i += 1;
    }
    r
}

/// Why running the prompt command failed.
#[derive(Debug)]
pub enum PromptError {
    /// The command needs a prompt title and none was given.
    MissingTitle,
    /// No prompt in the library carries the requested title.
    NoSuchPrompt { title: String },
}

impl PromptError {
    /// The message shown for this failure.
    pub fn message(&self) -> (r: String)
        ensures
            match self {
                PromptError::MissingTitle => r@ == "missing prompt name"@,
                PromptError::NoSuchPrompt { title } => r@ == "no prompt found with title "@
                    + title@,
            },
    {
        match self {
            PromptError::MissingTitle => "missing prompt name".to_owned(),
            PromptError::NoSuchPrompt { title } => {
                let mut m = "no prompt found with title ".to_owned();
                m.append(title.as_str());
                m
            },
        }
    }
}

/// The prompt slash command itself: named "prompt", requires an argument,
/// and inserts the content of the prompt whose title was given.
pub struct PromptSlashCommand {
    pub library: PromptLibrary,
}

impl PromptSlashCommand {
    pub fn new(library: PromptLibrary) -> (r: PromptSlashCommand)
        ensures
            r.library.entries() == library.entries(),
    {
        PromptSlashCommand { library }
    }

    /// The name the command is registered under.
    pub fn name(&self) -> (r: String)
        ensures
            r@ == "prompt"@,
    {
        "prompt".to_owned()
    }

    /// The description shown beside the command.
    pub fn description(&self) -> (r: String)
        ensures
            r@ == "insert a prompt from the library"@,
    {
        "insert a prompt from the library".to_owned()
    }

    /// The command cannot run without a title.
    pub fn requires_argument(&self) -> (r: bool)
        ensures
            r == true,
    {
        true
    }

    /// Runs the command: a missing title is rejected at once; otherwise
    /// the first prompt with that title provides the inserted text, and a
    /// title nothing carries names itself in the error.
    pub fn run(&self, title: Option<&str>) -> (r: Result<String, PromptError>)
        ensures
            match title {
                None => r matches Err(PromptError::MissingTitle),
                Some(t) => match first_titled(self.library.entries(), t@) {
                    Some(p) => r matches Ok(content) && content@ == p.content@,
                    None => r matches Err(PromptError::NoSuchPrompt { title: missing })
                        && missing@ == t@,
                },
            },
    {
        let title = match title {
            Some(t) => t,
            None => {
                return Err(PromptError::MissingTitle);
            },
        };
        match self.library.content_for_title(title) {
            Some(content) => Ok(content.clone()),
            None => Err(PromptError::NoSuchPrompt { title: title.to_owned() }),
        }
    }
}

} // verus!
