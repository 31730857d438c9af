//! Where the files of a build come from.

use vstd::prelude::*;
use crate::errors::{InvalidValueError, InvalidValueErrorView};
use crate::git_url::{git_parts, is_git_url, without_subdirectory, GitUrl};
use crate::merge_override::Duplicate;
use crate::raw_or::InterpolatableValue;

verus! {

/// Either a local directory path, or a Git-format "URL" (not necessarily a
/// real URL, alas).
#[derive(Debug, PartialEq, Eq)]
pub enum Context {
    /// A regular local directory.
    Dir(String),
    /// A Git repository, specified using any of the usual Git repository
    /// syntaxes.
    GitUrl(GitUrl),
}

/// A [`Context`], as plain values.
pub enum ContextView {
    Dir(Seq<char>),
    GitUrl(Seq<char>),
}

impl DeepView for Context {
    type V = ContextView;

    open spec fn deep_view(&self) -> ContextView {
        match self {
            Context::Dir(path) => ContextView::Dir(path@),
            Context::GitUrl(url) => ContextView::GitUrl(url.deep_view()),
        }
    }
}

/// The context that the string `s` stands for: a Git repository, if `s` is
/// a Git URL that divides into its parts, else a local directory.
pub open spec fn context_of(s: Seq<char>) -> ContextView {
    if is_git_url(s) && git_parts(s) is Some {
        ContextView::GitUrl(s)
    } else {
        ContextView::Dir(s)
    }
}

impl Context {
    /// Make a context from a string, taking it for either a local path or
    /// a remote Git repository.
    pub fn new(s: &str) -> (r: Context)
        ensures
            r.deep_view() == context_of(s@),
    {
        match GitUrl::new(s) {
            Ok(url) => Context::GitUrl(url),
            Err(_) => Context::Dir(s.to_owned()),
        }
    }

    /// Parse a context.  This never fails: what is no Git URL is a path.
    pub fn from_str(s: &str) -> (r: Result<Context, InvalidValueError>)
        ensures
            r is Ok,
            r->Ok_0.deep_view() == context_of(s@),
    {
        Ok(Context::new(s))
    }

    /// The text of this context: the path, or the URL.
    pub fn to_string(&self) -> (r: String)
        ensures
            r@ == Self::formatted(self.deep_view()),
    {
        match self {
            Context::Dir(path) => path.clone(),
            Context::GitUrl(url) => url.to_string(),
        }
    }

    /// This context without the subdirectory part of its repository, if it
    /// is one.  A local directory stays as it is.
    pub fn without_repository_subdirectory(&self) -> (r: Context)
        ensures
            r.deep_view() == match self.deep_view() {
                ContextView::Dir(path) => ContextView::Dir(path),
                ContextView::GitUrl(url) => ContextView::GitUrl(without_subdirectory(url)),
            },
    {
        match self {
            Context::Dir(path) => Context::Dir(path.clone()),
            Context::GitUrl(url) => Context::GitUrl(url.without_subdirectory()),
        }
    }
}

impl Clone for Context {
    fn clone(&self) -> (r: Self)
        ensures
            r.deep_view() == self.deep_view(),
    {
        self.duplicate()
    }
}

impl Duplicate for Context {
    fn duplicate(&self) -> (r: Context) {
        match self {
            Context::Dir(path) => Context::Dir(path.clone()),
            Context::GitUrl(url) => Context::GitUrl(url.duplicate()),
        }
    }
}

impl InterpolatableValue for Context {
    /// A directory is valid if its path is not taken for a Git URL, and a
    /// repository if its URL is.
    open spec fn valid(v: ContextView) -> bool {
        match v {
            ContextView::Dir(path) => !(is_git_url(path) && git_parts(path) is Some),
            ContextView::GitUrl(url) => is_git_url(url) && git_parts(url) is Some,
        }
    }

    open spec fn parse_model(s: Seq<char>) -> Result<ContextView, InvalidValueErrorView> {
        Ok(context_of(s))
    }

    open spec fn formatted(v: ContextView) -> Seq<char> {
        match v {
            ContextView::Dir(path) => path,
            ContextView::GitUrl(url) => url,
        }
    }

    proof fn lemma_parse_formatted(v: ContextView) {
    }

    fn iv_from_str(s: &str) -> (r: Result<Context, InvalidValueError>) {
        Context::from_str(s)
    }

    fn fmt_iv(&self) -> (r: String) {
        self.to_string()
    }

    fn is_valid(&self) -> (r: bool) {
        match self {
            Context::Dir(path) => GitUrl::new(path.as_str()).is_err(),
            Context::GitUrl(url) => {
                url.check();
                true
            },
        }
    }
}

} // verus!
