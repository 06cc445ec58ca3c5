//! The processing steps, and JSON paths with fallbacks used to read fields
//! out of event and resource data.
use crate::error::{IndexerError, IndexerErrorView};
use crate::json::{
    json_path_find_first, json_path_first, json_path_is_valid, json_path_parses, json_text, JsonValue,
    PathMatch, PathMatchView,
};
use crate::path_syntax::{json_path_evaluable, path_evaluable};
use crate::text::str_to_string;
use vstd::prelude::*;

pub mod db_writing_step;
pub mod processor_status_saver_step;
pub mod reduction_step;
pub mod remapper_step;
pub mod remappers;

verus! {

/// The first match, in path order, of any of `paths` in the JSON text `doc`.
pub open spec fn paths_first(paths: Seq<Seq<char>>, doc: Seq<char>) -> Option<PathMatchView>
    decreases paths.len(),
{
    if paths.len() == 0 {
        None
    } else {
        match json_path_first(paths[0], doc) {
            Some(m) => Some(m),
            None => paths_first(paths.drop_first(), doc),
        }
    }
}

/// Whether trying `paths` in order on `doc`, up to the first that finds a
/// value, evaluates only paths that the evaluator can run.
pub open spec fn paths_evaluable_in(paths: Seq<Seq<char>>, doc: Seq<char>) -> bool
    decreases paths.len(),
{
    paths.len() == 0 || (path_evaluable(paths[0]) && (json_path_first(paths[0], doc) is Some
        || paths_evaluable_in(paths.drop_first(), doc)))
}

/// What evaluating `path` on `doc` gives: the first match; an error when
/// there is none, or when the evaluator cannot run the path.
pub open spec fn path_lookup(path: Seq<char>, doc: Seq<char>) -> Result<PathMatchView, IndexerErrorView> {
    if !path_evaluable(path) {
        Err(IndexerErrorView::UnevaluableJsonPath(path))
    } else {
        match json_path_first(path, doc) {
            Some(m) => Ok(m),
            None => Err(IndexerErrorView::NoJsonPathMatch(doc)),
        }
    }
}

/// The string found by the first path that matches, if that match is a
/// string.
pub open spec fn paths_string(paths: Seq<Seq<char>>, v: JsonValue) -> Option<Seq<char>> {
    match paths_first(paths, json_text(v@)) {
        Some(m) => m.str_value,
        None => None,
    }
}

/// The first of `paths`, in order, that does not parse as a JSON path.
pub open spec fn first_unparsed(paths: Seq<Seq<char>>) -> Option<Seq<char>>
    decreases paths.len(),
{
    if paths.len() == 0 {
        None
    } else if !json_path_parses(paths[0]) {
        Some(paths[0])
    } else {
        first_unparsed(paths.drop_first())
    }
}

/// The error that building paths from `paths` gives, if any: the first path
/// that does not parse.
pub open spec fn paths_error(paths: Seq<Seq<char>>) -> Option<IndexerErrorView> {
    match first_unparsed(paths) {
        Some(p) => Some(IndexerErrorView::InvalidJsonPath(p)),
        None => None,
    }
}

/// Several JSON paths tried in order, the first that finds a value winning.
#[derive(Debug, Clone, PartialEq, Eq, Hash)]
pub struct HashableJsonPaths {
    raw: Vec<String>,
}

impl HashableJsonPaths {
    /// The paths, in order.
    pub closed spec fn paths(&self) -> Seq<Seq<char>> {
        self.raw@.map_values(|p: String| p@)
    }

    /// The paths, which must all parse as JSON paths.
    pub fn new(paths: Vec<String>) -> (r: Result<HashableJsonPaths, IndexerError>)
        ensures
            r matches Ok(p) ==> p.paths() == paths@.map_values(|s: String| s@),
            r is Ok <==> forall|i: int| 0 <= i < paths@.len() ==> json_path_parses(#[trigger] paths@[i]@),
            r matches Err(e) ==> exists|i: int|
                0 <= i < paths@.len() && !json_path_parses(#[trigger] paths@[i]@) && e@
                    == IndexerErrorView::InvalidJsonPath(paths@[i]@) && forall|j: int|
                    0 <= j < i ==> json_path_parses(#[trigger] paths@[j]@),
            (r is Err) == (paths_error(paths@.map_values(|s: String| s@)) is Some),
            r matches Err(e) ==> paths_error(paths@.map_values(|s: String| s@)) == Some(e@),
    {
        let ghost ps = paths@.map_values(|s: String| s@);
        let mut i: usize = 0;
        assert(ps.skip(0) =~= ps);
        while i < paths.len()
            invariant
                i <= paths@.len(),
                ps == paths@.map_values(|s: String| s@),
                forall|j: int| 0 <= j < i ==> json_path_parses(#[trigger] paths@[j]@),
                first_unparsed(ps) == first_unparsed(ps.skip(i as int)),
            decreases paths@.len() - i,
        {
            assert(ps.skip(i as int)[0] == paths@[i as int]@);
            assert(ps.skip(i as int).drop_first() =~= ps.skip(i + 1));
            if !json_path_is_valid(paths[i].as_str()) {
                return Err(IndexerError::InvalidJsonPath(paths[i].clone()));
            }
            i = i + 1;
        }
        assert(ps.skip(i as int).len() == 0);
        Ok(HashableJsonPaths { raw: paths })
    }

    /// The value found by the first path, in order, that finds one. Every
    /// path tried must be one the evaluator can run.
    pub fn extract_from(&self, value: &JsonValue) -> (r: Result<PathMatch, IndexerError>)
        requires
            paths_evaluable_in(self.paths(), json_text(value@)),
        ensures
            r matches Ok(m) ==> paths_first(self.paths(), json_text(value@)) == Some(m@),
            r is Err ==> paths_first(self.paths(), json_text(value@)) is None,
            r matches Err(e) ==> e@ == IndexerErrorView::NoJsonPathMatch(json_text(value@)),
    {
        let doc = value.to_json_text();
        let mut i: usize = 0;
        assert(self.paths().skip(0) =~= self.paths());
        while i < self.raw.len()
            invariant
                i <= self.raw@.len(),
                doc@ == json_text(value@),
                paths_evaluable_in(self.paths().skip(i as int), doc@),
                paths_first(self.paths(), doc@) == paths_first(self.paths().skip(i as int), doc@),
            decreases self.raw@.len() - i,
        {
            let ghost rest = self.paths().skip(i as int);
            assert(rest[0] == self.raw@[i as int]@);
            assert(rest.drop_first() =~= self.paths().skip(i + 1));
            match json_path_find_first(self.raw[i].as_str(), doc.as_str()) {
                Some(m) => {
                    return Ok(m);
                },
                None => {},
            }
            i = i + 1;
        }
        assert(self.paths().skip(i as int).len() == 0);
        Err(IndexerError::NoJsonPathMatch(doc))
    }
}

/// The string found by the first of `paths` that finds a value, when that
/// value is a string.
pub fn extract_string(paths: &HashableJsonPaths, from: &JsonValue) -> (r: Option<String>)
    requires
        paths_evaluable_in(paths.paths(), json_text(from@)),
    ensures
        r matches Some(s) ==> paths_string(paths.paths(), *from) == Some(s@),
        r is None ==> paths_string(paths.paths(), *from) is None,
{
    match paths.extract_from(from) {
        Ok(m) => m.str_value,
        Err(_) => None,
    }
}

/// The JSON texts of the items found by the first of `paths` that finds a
/// value, when that value is an array.
pub fn extract_vec_inner(paths: &HashableJsonPaths, from: &JsonValue) -> (r: Option<Vec<String>>)
    requires
        paths_evaluable_in(paths.paths(), json_text(from@)),
    ensures
        r matches Some(v) ==> paths_first(paths.paths(), json_text(from@)) matches Some(m)
            && m.items_text == Some(v@.map_values(|t: String| t@)),
        r is None ==> match paths_first(paths.paths(), json_text(from@)) {
            Some(m) => m.items_text is None,
            None => true,
        },
{
    match paths.extract_from(from) {
        Ok(m) => m.items_text,
        Err(_) => None,
    }
}

/// A single JSON path.
#[derive(Debug, Clone, PartialEq, Eq, Hash)]
pub struct HashableJsonPath {
    raw: String,
}

impl HashableJsonPath {
    /// The path text.
    pub closed spec fn path(&self) -> Seq<char> {
        self.raw@
    }

    /// The path, which must parse as a JSON path.
    pub fn new(raw: &str) -> (r: Result<HashableJsonPath, IndexerError>)
        ensures
            r matches Ok(p) ==> p.path() == raw@,
            r is Ok <==> json_path_parses(raw@),
            r matches Err(e) ==> e@ == IndexerErrorView::InvalidJsonPath(raw@),
    {
        if json_path_is_valid(raw) {
            Ok(HashableJsonPath { raw: str_to_string(raw) })
        } else {
            Err(IndexerError::InvalidJsonPath(str_to_string(raw)))
        }
    }

    /// The path text.
    pub fn raw(&self) -> (r: &str)
        ensures
            r@ == self.path(),
    {
        self.raw.as_str()
    }

    /// Whether the evaluator can run the path.
    pub fn is_evaluable(&self) -> (r: bool)
        ensures
            r == path_evaluable(self.path()),
    {
        json_path_evaluable(self.raw.as_str())
    }

    /// The first value the path finds; an error when it finds none, or when
    /// the evaluator cannot run it (where evaluating it would panic).
    pub fn extract_from(&self, value: &JsonValue) -> (r: Result<PathMatch, IndexerError>)
        ensures
            r matches Ok(m) ==> path_lookup(self.path(), json_text(value@)) == Ok::<PathMatchView, IndexerErrorView>(m@),
            r matches Err(e) ==> path_lookup(self.path(), json_text(value@)) == Err::<PathMatchView, IndexerErrorView>(e@),
    {
        if !json_path_evaluable(self.raw.as_str()) {
            return Err(IndexerError::UnevaluableJsonPath(self.raw.clone()));
        }
        let doc = value.to_json_text();
        match json_path_find_first(self.raw.as_str(), doc.as_str()) {
            Some(m) => Ok(m),
            None => Err(IndexerError::NoJsonPathMatch(doc)),
        }
    }

    /// The string the path finds, if it finds a string. The evaluator must
    /// be able to run the path.
    pub fn extract_string(&self, from: &JsonValue) -> (r: Option<String>)
        requires
            path_evaluable(self.path()),
        ensures
            r matches Some(s) ==> json_path_first(self.path(), json_text(from@)) matches Some(m)
                && m.str_value == Some(s@),
            r is None ==> match json_path_first(self.path(), json_text(from@)) {
                Some(m) => m.str_value is None,
                None => true,
            },
    {
        match self.extract_from(from) {
            Ok(m) => m.str_value,
            Err(_) => None,
        }
    }
}

} // verus!
