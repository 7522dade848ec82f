//! Species identifiers.
use crate::error::{ConfigError, ConfigErrorView};
use crate::keyed::{Keyed, SortKey};
use vstd::prelude::*;

verus! {

/// A character allowed in a species id: ASCII lowercase letter, digit or `-`.
pub open spec fn is_id_char(c: char) -> bool {
    ('a' <= c && c <= 'z') || ('0' <= c && c <= '9') || c == '-'
}

/// A valid species id: non-empty, made of `is_id_char` characters only.
pub open spec fn valid_species_id(s: Seq<char>) -> bool {
    s.len() > 0 && forall|i: int| 0 <= i < s.len() ==> is_id_char(#[trigger] s[i])
}

/// What `new` gives for the characters `s`.
pub open spec fn species_id_check(s: Seq<char>) -> Option<ConfigErrorView> {
    if s.len() == 0 {
        Some(ConfigErrorView::EmptySpeciesId)
    } else if !valid_species_id(s) {
        Some(ConfigErrorView::InvalidSpeciesId(s))
    } else {
        None
    }
}

fn all_id_chars(value: &str) -> (r: bool)
    ensures
        r == (forall|i: int| 0 <= i < value@.len() ==> is_id_char(#[trigger] value@[i])),
{
    let n = value.unicode_len();
    let mut i: usize = 0;
    while i < n
        invariant
            n == value@.len(),
            i <= n,
            forall|j: int| 0 <= j < i ==> is_id_char(#[trigger] value@[j]),
        decreases n - i,
    {
        let c = value.get_char(i);
        if !(('a' <= c && c <= 'z') || ('0' <= c && c <= '9') || c == '-') {
            assert(!is_id_char(value@[i as int]));
            return false;
        }
        i = i + 1;
    }
    true
}

/// The id of a plant species.
#[derive(Clone, Debug, PartialEq, Eq, PartialOrd, Ord, Hash)]
pub struct PlantId(String);

/// The id of an animal species.
#[derive(Clone, Debug, PartialEq, Eq, PartialOrd, Ord, Hash)]
pub struct AnimalId(String);

impl View for PlantId {
    type V = Seq<char>;

    closed spec fn view(&self) -> Seq<char> {
        self.0@
    }
}

impl View for AnimalId {
    type V = Seq<char>;

    closed spec fn view(&self) -> Seq<char> {
        self.0@
    }
}

impl SortKey for PlantId {
    open spec fn key(&self) -> Seq<char> {
        self@
    }
}

impl Keyed for PlantId {
    fn key_str(&self) -> (r: &str) {
        self.0.as_str()
    }

    fn dup(&self) -> (r: Self) {
        self.copy()
    }
}

impl SortKey for AnimalId {
    open spec fn key(&self) -> Seq<char> {
        self@
    }
}

impl Keyed for AnimalId {
    fn key_str(&self) -> (r: &str) {
        self.0.as_str()
    }

    fn dup(&self) -> (r: Self) {
        self.copy()
    }
}

impl PlantId {
    /// Accepts a non-empty id of ASCII lowercase letters, digits and `-`.
    pub fn new(value: &str) -> (r: Result<Self, ConfigError>)
        ensures
            r is Ok <==> valid_species_id(value@),
            r matches Ok(id) ==> id@ == value@,
            r matches Err(e) ==> Some(e@) == species_id_check(value@),
    {
        if value.is_empty() {
            return Err(ConfigError::EmptySpeciesId);
        }
        if !all_id_chars(value) {
            return Err(ConfigError::InvalidSpeciesId(value.to_owned()));
        }
        Ok(PlantId(value.to_owned()))
    }

    pub fn as_str(&self) -> (r: &str)
        ensures
            r@ == self@,
    {
        self.0.as_str()
    }

    /// The id as an owned string.
    pub fn to_string(&self) -> (r: String)
        ensures
            r@ == self@,
    {
        self.0.clone()
    }

    /// A copy of the id.
    pub fn copy(&self) -> (r: Self)
        ensures
            r@ == self@,
    {
        PlantId(self.0.clone())
    }

    /// The two ids are the same.
    pub fn same(&self, other: &Self) -> (r: bool)
        ensures
            r == (self@ == other@),
    {
        self.0 == other.0
    }
}

impl AnimalId {
    /// Accepts a non-empty id of ASCII lowercase letters, digits and `-`.
    pub fn new(value: &str) -> (r: Result<Self, ConfigError>)
        ensures
            r is Ok <==> valid_species_id(value@),
            r matches Ok(id) ==> id@ == value@,
            r matches Err(e) ==> Some(e@) == species_id_check(value@),
    {
        if value.is_empty() {
            return Err(ConfigError::EmptySpeciesId);
        }
        if !all_id_chars(value) {
            return Err(ConfigError::InvalidSpeciesId(value.to_owned()));
        }
        Ok(AnimalId(value.to_owned()))
    }

    pub fn as_str(&self) -> (r: &str)
        ensures
            r@ == self@,
    {
        self.0.as_str()
    }

    /// The id as an owned string.
    pub fn to_string(&self) -> (r: String)
        ensures
            r@ == self@,
    {
        self.0.clone()
    }

    /// A copy of the id.
    pub fn copy(&self) -> (r: Self)
        ensures
            r@ == self@,
    {
        AnimalId(self.0.clone())
    }

    /// The two ids are the same.
    pub fn same(&self, other: &Self) -> (r: bool)
        ensures
            r == (self@ == other@),
    {
        self.0 == other.0
    }
}

} // verus!
