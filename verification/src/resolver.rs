//! Resolvers: what turns the path of a module into its source text.

use crate::syntax::{strs_view, Text};
use vstd::prelude::*;

verus! {

/// Why a path could not be resolved.
#[derive(Debug, PartialEq)]
pub enum ResolutionError {
    /// The resolver does not serve paths of this kind; the string says why.
    InvalidPathForResolver(String),
    /// Nothing is to be had at the place that the path stands for; the
    /// string names the place.
    PathNotFound(String),
}

/// The view of a [`ResolutionError`].
pub enum ResolutionErrorView {
    InvalidPathForResolver(Text),
    PathNotFound(Text),
}

impl View for ResolutionError {
    type V = ResolutionErrorView;

    open spec fn view(&self) -> ResolutionErrorView {
        match *self {
            ResolutionError::InvalidPathForResolver(reason) => {
                ResolutionErrorView::InvalidPathForResolver(reason@)
            },
            ResolutionError::PathNotFound(path) => ResolutionErrorView::PathNotFound(path@),
        }
    }
}

impl Clone for ResolutionError {
    fn clone(&self) -> (r: Self)
        ensures
            r@ == self@,
    {
        match self {
            ResolutionError::InvalidPathForResolver(reason) => {
                ResolutionError::InvalidPathForResolver(reason.clone())
            },
            ResolutionError::PathNotFound(path) => ResolutionError::PathNotFound(path.clone()),
        }
    }
}

/// The sentence that reports an error to a reader.
pub open spec fn message_of(e: ResolutionErrorView) -> Text {
    match e {
        ResolutionErrorView::InvalidPathForResolver(reason) => reason
            + ". Try using a different resolver."@,
        ResolutionErrorView::PathNotFound(path) => "Failed to resolve path `"@ + path + "`."@,
    }
}

impl ResolutionError {
    /// The sentence that reports this error to a reader.
    pub fn message(&self) -> (r: String)
        ensures
            r@ == message_of(self@),
    {
        match self {
            ResolutionError::InvalidPathForResolver(reason) => {
                reason.clone().concat(". Try using a different resolver.")
            },
            ResolutionError::PathNotFound(path) => {
                let mut r = "Failed to resolve path `".to_owned();
                r.append(path.as_str());
                r.append("`.");
                r
            },
        }
    }
}

/// What a resolver answers: the source text and the name of the source.
pub type Resolution = Result<(Text, Text), ResolutionErrorView>;

/// The view of an answer.
pub open spec fn resolution_view(r: Result<(String, String), ResolutionError>) -> Resolution {
    match r {
        Ok((text, name)) => Ok((text@, name@)),
        Err(e) => Err(e@),
    }
}

/// A source of modules. A resolver answers as a function of the path: asked
/// twice for one path, it answers the same.
pub trait Resolve {
    /// What `resolve` answers for a path.
    spec fn resolution(&self, path: Seq<Text>) -> Resolution;

    /// The source text of the module at `path` and the name to cite it by,
    /// or why there is none.
    fn resolve(&self, path: &[&str]) -> (r: Result<(String, String), ResolutionError>)
        ensures
            resolution_view(r) == self.resolution(strs_view(path@)),
    ;
}

/// The segments of a path, written with `/` between them.
pub open spec fn joined(segments: Seq<Text>) -> Text
    decreases segments.len(),
{
    if segments.len() == 0 {
        Seq::empty()
    } else if segments.len() == 1 {
        segments[0]
    } else {
        joined(segments.drop_last()) + seq!['/'] + segments.last()
    }
}

/// The segments of `path`, written with `/` between them.
pub fn join_segments(path: &[&str]) -> (r: String)
    ensures
        r@ == joined(strs_view(path@)),
{
    let ghost segments = strs_view(path@);
    let mut r = String::new();
    let mut i: usize = 0;
    while i < path.len()
        invariant
            i <= path.len(),
            segments == strs_view(path@),
            r@ == joined(segments.take(i as int)),
        decreases path.len() - i,
    {
        proof {
            reveal_strlit("/");
            assert(segments.take(i + 1).drop_last() =~= segments.take(i as int));
        }
        if i > 0 {
            r.append("/");
        }
        r.append(path[i]);
        proof {
            if i == 0 {
                assert(r@ =~= segments[0]);
            }
        }
        i += 1;
    }
    assert(segments.take(i as int) =~= segments);
    r
}

/// The text kept under `key`: that of the last entry with that key.
pub open spec fn text_under(entries: Seq<(Text, Text)>, key: Text) -> Option<Text>
    decreases entries.len(),
{
    if entries.len() == 0 {
        None
    } else if entries.last().0 == key {
        Some(entries.last().1)
    } else {
        text_under(entries.drop_last(), key)
    }
}

/// Pairs of strings, each seen as its characters.
pub open spec fn entries_view(v: Seq<(String, String)>) -> Seq<(Text, Text)> {
    v.map_values(|e: (String, String)| (e.0@, e.1@))
}

/// The text kept under `key`, if any: that of the last entry with that key.
pub fn find_text(entries: &Vec<(String, String)>, key: &String) -> (r: Option<String>)
    ensures
        match r {
            Some(text) => text_under(entries_view(entries@), key@) == Some(text@),
            None => text_under(entries_view(entries@), key@) is None,
        },
{
    let ghost all = entries_view(entries@);
    let mut i: usize = entries.len();
    assert(all.take(i as int) =~= all);
    while i > 0
        invariant
            i <= entries.len(),
            all == entries_view(entries@),
            text_under(all, key@) == text_under(all.take(i as int), key@),
        decreases i,
    {
        assert(all.take(i as int).drop_last() =~= all.take(i - 1));
        if entries[i - 1].0 == *key {
            return Some(entries[i - 1].1.clone());
        }
        i -= 1;
    }
    None
}

/// A resolver that answers from a table of sources that it was made with.
/// A module is kept under its path, written with `/` between the segments;
/// of two entries under one path the later counts.
#[derive(Debug, PartialEq)]
pub struct MockResolver {
    sources: Vec<(String, String)>,
}

impl MockResolver {
    /// The entries of the table.
    pub closed spec fn entries(&self) -> Seq<(Text, Text)> {
        entries_view(self.sources@)
    }

    /// The resolver that answers from `sources`.
    pub fn new(sources: Vec<(String, String)>) -> (r: MockResolver)
        ensures
            r.entries() == entries_view(sources@),
    {
        MockResolver { sources }
    }
}

impl Resolve for MockResolver {
    open spec fn resolution(&self, path: Seq<Text>) -> Resolution {
        match text_under(self.entries(), joined(path)) {
            Some(text) => Ok((text, joined(path))),
            None => Err(ResolutionErrorView::PathNotFound(joined(path))),
        }
    }

    fn resolve(&self, path: &[&str]) -> (r: Result<(String, String), ResolutionError>) {
        let path = join_segments(path);
        match find_text(&self.sources, &path) {
            Some(source) => Ok((source, path)),
            None => Err(ResolutionError::PathNotFound(path)),
        }
    }
}

/// What std's rules for paths make of `relative` taken from `base`.
pub uninterp spec fn path_joined(base: Text, relative: Text) -> Text;

/// What std's rules for paths make of `path` when its extension is set to
/// `extension`.
pub uninterp spec fn path_with_extension(path: Text, extension: Text) -> Text;

/// Calls `std::path::Path::join` on `base`, with `relative`, and gives the
/// result as a string. The contract only gives the result its name: it is
/// what std makes of the two strings, and of nothing else.
#[verifier::external_body]
fn join_paths(base: &str, relative: &str) -> (r: String)
    ensures
        r@ == path_joined(base@, relative@),
{
    std::path::Path::new(base).join(relative).to_string_lossy().into_owned()
}

/// Calls `std::path::PathBuf::set_extension` on `path`, with `extension`, and
/// gives the path that results as a string. std panics on an extension that
/// holds a path separator, so none may be passed. The contract only gives
/// the result its name: it is what std makes of the two strings, and of
/// nothing else.
#[verifier::external_body]
fn set_extension(path: &str, extension: &str) -> (r: String)
    requires
        !extension@.contains('/'),
        !extension@.contains('\\'),
    ensures
        r@ == path_with_extension(path@, extension@),
{
    let mut file = std::path::PathBuf::from(path);
    file.set_extension(extension);
    file.to_string_lossy().into_owned()
}

/// Whether a path asks for a remote module: its first segment starts with
/// `@`.
pub open spec fn is_remote(path: Seq<Text>) -> bool {
    path.len() > 0 && path[0].len() > 0 && path[0][0] == '@'
}

/// The file that a module path stands for below `base`: the segments joined
/// to a path relative to `base`, with the extension `lang`.
pub open spec fn file_of(base: Text, path: Seq<Text>) -> Text {
    path_with_extension(path_joined(base, joined(path)), "lang"@)
}

/// What a resolver for the files below `base` answers for `path`, given the
/// files that it holds.
pub open spec fn file_resolution(base: Text, files: Seq<(Text, Text)>, path: Seq<Text>) -> Resolution {
    if is_remote(path) {
        Err(
            ResolutionErrorView::InvalidPathForResolver(
                "FileSystemResolver cannot resolve remote imports."@,
            ),
        )
    } else {
        match text_under(files, file_of(base, path)) {
            Some(text) => Ok((text, file_of(base, path))),
            None => Err(ResolutionErrorView::PathNotFound(file_of(base, path))),
        }
    }
}

/// A resolver for modules kept as files below a base directory. It says
/// which file a module path stands for, and answers from the texts of the
/// files that it was handed; it reads no file itself.
#[derive(Debug, PartialEq)]
pub struct FileSystemResolver {
    base_path: String,
    cache: Vec<(String, String)>,
}

impl FileSystemResolver {
    /// The base directory.
    pub closed spec fn base(&self) -> Text {
        self.base_path@
    }

    /// The files handed over so far: the name and the text of each.
    pub closed spec fn files(&self) -> Seq<(Text, Text)> {
        entries_view(self.cache@)
    }

    /// The resolver for the files below `base_path`, with no file handed
    /// over yet.
    pub fn new(base_path: &str) -> (r: FileSystemResolver)
        ensures
            r.base() == base_path@,
            r.files() == Seq::<(Text, Text)>::empty(),
    {
        let r = FileSystemResolver { base_path: base_path.to_owned(), cache: Vec::new() };
        r
    }

    /// The name of the file that `path` stands for. A remote path stands for
    /// none.
    pub fn locate(&self, path: &[&str]) -> (r: Result<String, ResolutionError>)
        ensures
            match r {
                Ok(file) => !is_remote(strs_view(path@)) && file@ == file_of(
                    self.base(),
                    strs_view(path@),
                ),
                Err(e) => is_remote(strs_view(path@)) && e@
                    == ResolutionErrorView::InvalidPathForResolver(
                    "FileSystemResolver cannot resolve remote imports."@,
                ),
            },
    {
        if path.len() > 0 && !path[0].is_empty() && path[0].get_char(0) == '@' {
            return Err(
                ResolutionError::InvalidPathForResolver(
                    "FileSystemResolver cannot resolve remote imports.".to_owned(),
                ),
            );
        }
        let relative = join_segments(path);
        let dir = join_paths(self.base_path.as_str(), relative.as_str());
        proof {
            reveal_strlit("lang");
        }
        Ok(set_extension(dir.as_str(), "lang"))
    }

    /// Hands over the text of the file called `file_name`. It replaces what
    /// was handed over for that file before.
    pub fn load(&mut self, file_name: &str, contents: &str)
        ensures
            final(self).base() == old(self).base(),
            final(self).files() == old(self).files().push((file_name@, contents@)),
    {
        let entry = (file_name.to_owned(), contents.to_owned());
        self.cache.push(entry);
    }
}

impl Resolve for FileSystemResolver {
    open spec fn resolution(&self, path: Seq<Text>) -> Resolution {
        file_resolution(self.base(), self.files(), path)
    }

    fn resolve(&self, path: &[&str]) -> (r: Result<(String, String), ResolutionError>) {
        match self.locate(path) {
            Ok(file_name) => match find_text(&self.cache, &file_name) {
                Some(contents) => Ok((contents, file_name)),
                None => Err(ResolutionError::PathNotFound(file_name)),
            },
            Err(e) => Err(e),
        }
    }
}

} // verus!
