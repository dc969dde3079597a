//! What a loader is asked to load: a path or URL, a numeric range (pull
//! request numbers), or a list of numbers.

use vstd::prelude::*;

verus! {

#[derive(Debug, Clone, PartialEq, Eq)]
pub enum DocumentPath {
    Str(String),
    Range(usize, usize),
    List(Vec<usize>),
}

#[derive(Debug, Clone, PartialEq, Eq)]
pub enum PathKindError {
    NotAString,
    NotARange,
    NotAList,
}

impl PathKindError {
    pub fn message(&self) -> (r: String)
        ensures
            *self is NotAString ==> r@ == "DocumentPath is not a string"@,
            *self is NotARange ==> r@ == "DocumentPath is not a range"@,
            *self is NotAList ==> r@ == "DocumentPath is not a list"@,
    {
        match self {
            PathKindError::NotAString => "DocumentPath is not a string".to_owned(),
            PathKindError::NotARange => "DocumentPath is not a range".to_owned(),
            PathKindError::NotAList => "DocumentPath is not a list".to_owned(),
        }
    }
}

impl DocumentPath {
    pub fn as_str(&self) -> (r: Result<&str, PathKindError>)
        ensures
            match self {
                DocumentPath::Str(s) => r is Ok && r->Ok_0@ == s@,
                _ => r == Err::<&str, PathKindError>(PathKindError::NotAString),
            },
    {
        match self {
            DocumentPath::Str(s) => Ok(s.as_str()),
            _ => Err(PathKindError::NotAString),
        }
    }

    pub fn from_string(s: &str) -> (r: DocumentPath)
        ensures
            r is Str && r->Str_0@ == s@,
    {
        DocumentPath::Str(s.to_owned())
    }

    pub fn as_range(&self) -> (r: Result<(usize, usize), PathKindError>)
        ensures
            match self {
                DocumentPath::Range(start, end) => r == Ok::<(usize, usize), PathKindError>((*start, *end)),
                _ => r == Err::<(usize, usize), PathKindError>(PathKindError::NotARange),
            },
    {
        match self {
            DocumentPath::Range(start, end) => Ok((*start, *end)),
            _ => Err(PathKindError::NotARange),
        }
    }

    pub fn from_range(start: usize, end: usize) -> (r: DocumentPath)
        ensures
            r == DocumentPath::Range(start, end),
    {
        DocumentPath::Range(start, end)
    }

    pub fn as_list(&self) -> (r: Result<Vec<usize>, PathKindError>)
        ensures
            match self {
                DocumentPath::List(list) => r is Ok && r->Ok_0@ == list@,
                _ => r == Err::<Vec<usize>, PathKindError>(PathKindError::NotAList),
            },
    {
        match self {
            DocumentPath::List(list) => Ok(list.clone()),
            _ => Err(PathKindError::NotAList),
        }
    }

    pub fn from_list(list: Vec<usize>) -> (r: DocumentPath)
        ensures
            r == DocumentPath::List(list),
    {
        DocumentPath::List(list)
    }
}

} // verus!
